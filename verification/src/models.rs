//! The data that the routing engine, the interface and the privileged helper
//! exchange, and how a user's input becomes a rule target.
use vstd::prelude::*;

use crate::ipaddr::{ip_family_at, ip_text_family, parse_u8_at, parse_u8_text};
use crate::text::{
    chars_of, find_char, first_index, has_char, join, join_strings, last_index,
    lemma_first_index_unique, lemma_last_index_unique, lower_seq, rfind_char, string_of_range,
    texts_of, trim, trim_range,
};

verus! {

// ── Network interfaces ──────────────────────────────────────────────────────

/// A network interface and the default gateway that it offers.
#[derive(Debug, Clone)]
pub struct NetworkInterface {
    pub name: String,
    pub gateway: Option<String>,
    /// Whether this interface carries the system's default route.
    pub is_default: bool,
}

// ── Rule targets ────────────────────────────────────────────────────────────

/// What a rule routes: an IP address or CIDR range, or a domain whose
/// addresses are resolved.
#[derive(Debug, Clone, PartialEq)]
pub enum RuleTarget {
    /// An address such as `93.184.216.34` or a range such as `10.0.0.0/8`.
    Ip(String),
    /// A domain such as `chatgpt.com`; the kernel routes its resolved
    /// addresses, which a CDN may change at any time.
    Domain(String),
}

/// A rule target as text.
pub enum TargetView {
    Ip(Seq<char>),
    Domain(Seq<char>),
}

impl View for RuleTarget {
    type V = TargetView;

    open spec fn view(&self) -> TargetView {
        match self {
            RuleTarget::Ip(s) => TargetView::Ip(s@),
            RuleTarget::Domain(s) => TargetView::Domain(s@),
        }
    }
}

pub open spec fn target_text(t: TargetView) -> Seq<char> {
    match t {
        TargetView::Ip(s) => s,
        TargetView::Domain(s) => s,
    }
}

pub open spec fn opt_target_view(t: Option<RuleTarget>) -> Option<TargetView> {
    match t {
        Some(x) => Some(x@),
        None => None,
    }
}

/// The address family of a route or a rule.
#[derive(Debug, Clone, Copy, PartialEq, Eq, Hash, Structural)]
pub enum IpFamily {
    V4,
    V6,
}

/// The longest prefix that a CIDR range of the family may have.
pub open spec fn prefix_limit(f: IpFamily) -> nat {
    match f {
        IpFamily::V4 => 32,
        IpFamily::V6 => 128,
    }
}

/// `address/prefix`, split at the first `/`, where the address is an IP
/// address and the prefix a `u8` no longer than the family allows.
pub open spec fn is_cidr_text(t: Seq<char>) -> bool {
    has_char(t, '/') && {
        let k = first_index(t, '/');
        match ip_text_family(t.take(k)) {
            Some(f) => match parse_u8_text(t.skip(k + 1)) {
                Some(p) => p <= prefix_limit(f),
                None => false,
            },
            None => false,
        }
    }
}

pub open spec fn is_scheme_sep_at(s: Seq<char>, j: int) -> bool {
    0 <= j && j + 3 <= s.len() && s[j] == ':' && s[j + 1] == '/' && s[j + 2] == '/'
}

pub open spec fn is_first_scheme_sep(s: Seq<char>, j: int) -> bool {
    &&& is_scheme_sep_at(s, j)
    &&& forall|i: int| 0 <= i < j ==> !is_scheme_sep_at(s, i)
}

pub open spec fn has_scheme_sep(s: Seq<char>) -> bool {
    exists|j: int| is_scheme_sep_at(s, j)
}

/// What follows the first `://`, or all of `s` when it holds none.
pub open spec fn strip_scheme(s: Seq<char>) -> Seq<char> {
    if has_scheme_sep(s) {
        s.skip((choose|j: int| is_first_scheme_sep(s, j)) + 3)
    } else {
        s
    }
}

pub open spec fn ends_authority(c: char) -> bool {
    c == '/' || c == '?' || c == '#'
}

/// `k` is where the authority ends: at the first `/`, `?` or `#`, or at the
/// end of `s`.
pub open spec fn is_authority_cut(s: Seq<char>, k: int) -> bool {
    &&& 0 <= k <= s.len()
    &&& k < s.len() ==> ends_authority(s[k])
    &&& forall|i: int| 0 <= i < k ==> !ends_authority(s[i])
}

/// The authority part of a URL, with white space trimmed.
pub open spec fn authority_of(s: Seq<char>) -> Seq<char> {
    trim(s.take(choose|k: int| is_authority_cut(s, k)), false)
}

/// The authority without user information (what precedes the last `@`).
pub open spec fn after_userinfo(a: Seq<char>) -> Seq<char> {
    if has_char(a, '@') {
        a.skip(last_index(a, '@') + 1)
    } else {
        a
    }
}

/// The host of an authority: the text in brackets, or the text before a
/// port (`:` and what follows); an authority that holds more than one `:`
/// outside brackets is taken whole.
pub open spec fn host_of(a: Seq<char>) -> Seq<char> {
    if a.len() > 0 && a[0] == '[' {
        let rest = a.drop_first();
        if has_char(rest, ']') {
            rest.take(first_index(rest, ']'))
        } else {
            rest
        }
    } else if has_char(a, ':') {
        let h = a.take(last_index(a, ':'));
        if has_char(h, ':') {
            a
        } else {
            h
        }
    } else {
        a
    }
}

/// The domain that a URL or `host[:port]` names: the host, without leading
/// or trailing dots, in ASCII lower case.
pub open spec fn domain_of(t: Seq<char>) -> Seq<char> {
    lower_seq(trim(host_of(after_userinfo(authority_of(strip_scheme(t)))), true))
}

/// The rule target that a user's input names: after trimming white space,
/// an IP address or CIDR range is an IP target taken as written; anything
/// else is read as a URL or `host[:port]` whose host is a domain target.
pub open spec fn user_input_target(s: Seq<char>) -> Option<TargetView> {
    let t = trim(s, false);
    if t.len() == 0 {
        None
    } else if is_cidr_text(t) || ip_text_family(t) is Some {
        Some(TargetView::Ip(t))
    } else {
        let d = domain_of(t);
        if d.len() == 0 {
            None
        } else {
            Some(TargetView::Domain(d))
        }
    }
}

/// Whether `v[lo..hi]` is `address/prefix` as `is_cidr_text` says.
fn is_cidr_at(v: &Vec<char>, lo: usize, hi: usize) -> (r: bool)
    requires
        lo <= hi <= v.len(),
    ensures
        r == is_cidr_text(v@.subrange(lo as int, hi as int)),
{
    let ghost t = v@.subrange(lo as int, hi as int);
    match find_char(v, lo, hi, '/') {
        None => false,
        Some(k) => {
            proof {
                lemma_first_index_unique(t, '/', k - lo);
                assert(t.take(k - lo) =~= v@.subrange(lo as int, k as int));
                assert(t.skip(k - lo + 1) =~= v@.subrange(k + 1, hi as int));
            }
            match ip_family_at(v, lo, k) {
                None => false,
                Some(f) => match parse_u8_at(v, k + 1, hi) {
                    None => false,
                    Some(p) => match f {
                        IpFamily::V4 => p <= 32,
                        IpFamily::V6 => p <= 128,
                    },
                },
            }
        },
    }
}

/// The first `://` in `v[lo..hi]`, as an index into `v`.
fn find_scheme_sep(v: &Vec<char>, lo: usize, hi: usize) -> (r: Option<usize>)
    requires
        lo <= hi <= v.len(),
    ensures
        r is None ==> !has_scheme_sep(v@.subrange(lo as int, hi as int)),
        r matches Some(j) ==> lo <= j && j + 3 <= hi && is_first_scheme_sep(
            v@.subrange(lo as int, hi as int),
            j - lo,
        ),
{
    let ghost s = v@.subrange(lo as int, hi as int);
    let mut i = lo;
    while i < hi && hi - i >= 3
        invariant
            lo <= i <= hi <= v.len(),
            s == v@.subrange(lo as int, hi as int),
            forall|j: int| 0 <= j < i - lo ==> !is_scheme_sep_at(s, j),
        decreases hi - i,
    {
        if v[i] == ':' && v[i + 1] == '/' && v[i + 2] == '/' {
            assert(is_scheme_sep_at(s, i - lo));
            return Some(i);
        }
        assert(!is_scheme_sep_at(s, i - lo));
        i = i + 1;
    }
    assert forall|j: int| !is_scheme_sep_at(s, j) by {
        if 0 <= j < i - lo {
        }
    }
    None
}

/// Where the authority in `v[lo..hi]` ends, as an index into `v`.
fn authority_cut(v: &Vec<char>, lo: usize, hi: usize) -> (r: usize)
    requires
        lo <= hi <= v.len(),
    ensures
        lo <= r <= hi,
        is_authority_cut(v@.subrange(lo as int, hi as int), r - lo),
{
    let ghost s = v@.subrange(lo as int, hi as int);
    let mut i = lo;
    while i < hi
        invariant
            lo <= i <= hi <= v.len(),
            s == v@.subrange(lo as int, hi as int),
            forall|j: int| 0 <= j < i - lo ==> !ends_authority(s[j]),
        decreases hi - i,
    {
        let c = v[i];
        if c == '/' || c == '?' || c == '#' {
            assert(s[i - lo] == c);
            return i;
        }
        assert(s[i - lo] == c);
        i = i + 1;
    }
    i
}

/// Where `strip_scheme(v[a..b])` starts, as an index into `v`.
fn strip_scheme_at(v: &Vec<char>, a: usize, b: usize) -> (r: usize)
    requires
        a <= b <= v.len(),
    ensures
        a <= r <= b,
        strip_scheme(v@.subrange(a as int, b as int)) == v@.subrange(r as int, b as int),
{
    let ghost t = v@.subrange(a as int, b as int);
    match find_scheme_sep(v, a, b) {
        Some(j) => {
            proof {
                let j0 = choose|j1: int| is_first_scheme_sep(t, j1);
                assert(is_first_scheme_sep(t, j - a));
                assert(is_first_scheme_sep(t, j0));
                if j0 < j - a {
                    assert(!is_scheme_sep_at(t, j0));
                }
                if j - a < j0 {
                    assert(!is_scheme_sep_at(t, j - a));
                }
                assert(t.skip(j - a + 3) =~= v@.subrange(j + 3, b as int));
            }
            j + 3
        },
        None => a,
    }
}

/// The bounds of `authority_of(v[s0..b])`.
fn authority_at(v: &Vec<char>, s0: usize, b: usize) -> (r: (usize, usize))
    requires
        s0 <= b <= v.len(),
    ensures
        s0 <= r.0 <= r.1 <= b,
        authority_of(v@.subrange(s0 as int, b as int)) == v@.subrange(r.0 as int, r.1 as int),
{
    let cut = authority_cut(v, s0, b);
    proof {
        let u = v@.subrange(s0 as int, b as int);
        let k0 = choose|k: int| is_authority_cut(u, k);
        assert(is_authority_cut(u, cut - s0));
        assert(is_authority_cut(u, k0));
        if k0 < cut - s0 {
            assert(ends_authority(u[k0]));
        }
        if cut - s0 < k0 {
            assert(ends_authority(u[cut - s0]));
        }
        assert(u.take(cut - s0) =~= v@.subrange(s0 as int, cut as int));
    }
    trim_range(v, s0, cut, false)
}

/// Where `after_userinfo(v[a1..b1])` starts.
fn after_userinfo_at(v: &Vec<char>, a1: usize, b1: usize) -> (r: usize)
    requires
        a1 <= b1 <= v.len(),
    ensures
        a1 <= r <= b1,
        after_userinfo(v@.subrange(a1 as int, b1 as int)) == v@.subrange(r as int, b1 as int),
{
    let ghost auth = v@.subrange(a1 as int, b1 as int);
    match rfind_char(v, a1, b1, '@') {
        Some(k) => {
            proof {
                lemma_last_index_unique(auth, '@', k - a1);
                assert(auth.skip(k - a1 + 1) =~= v@.subrange(k + 1, b1 as int));
            }
            k + 1
        },
        None => a1,
    }
}

/// The bounds of `host_of(v[a2..b1])`.
fn host_at(v: &Vec<char>, a2: usize, b1: usize) -> (r: (usize, usize))
    requires
        a2 <= b1 <= v.len(),
    ensures
        a2 <= r.0 <= r.1 <= b1,
        host_of(v@.subrange(a2 as int, b1 as int)) == v@.subrange(r.0 as int, r.1 as int),
{
    let ghost au = v@.subrange(a2 as int, b1 as int);
    if a2 < b1 && v[a2] == '[' {
        assert(au[0] == '[');
        assert(au.drop_first() =~= v@.subrange(a2 + 1, b1 as int));
        match find_char(v, a2 + 1, b1, ']') {
            Some(k) => {
                proof {
                    let rest = v@.subrange(a2 + 1, b1 as int);
                    lemma_first_index_unique(rest, ']', k - a2 - 1);
                    assert(rest.take(k - a2 - 1) =~= v@.subrange(a2 + 1, k as int));
                }
                (a2 + 1, k)
            },
            None => (a2 + 1, b1),
        }
    } else {
        assert(!(au.len() > 0 && au[0] == '['));
        match rfind_char(v, a2, b1, ':') {
            Some(k) => {
                proof {
                    lemma_last_index_unique(au, ':', k - a2);
                    assert(au.take(k - a2) =~= v@.subrange(a2 as int, k as int));
                }
                match find_char(v, a2, k, ':') {
                    Some(_) => (a2, b1),
                    None => (a2, k),
                }
            },
            None => (a2, b1),
        }
    }
}

/// The bounds of the domain that `v[a..b]` names, before lower-casing.
fn domain_at(v: &Vec<char>, a: usize, b: usize) -> (r: (usize, usize))
    requires
        a <= b <= v.len(),
    ensures
        a <= r.0 <= r.1 <= b,
        domain_of(v@.subrange(a as int, b as int)) == lower_seq(
            v@.subrange(r.0 as int, r.1 as int),
        ),
{
    let s0 = strip_scheme_at(v, a, b);
    let (a1, b1) = authority_at(v, s0, b);
    let a2 = after_userinfo_at(v, a1, b1);
    let (h0, h1) = host_at(v, a2, b1);
    trim_range(v, h0, h1, true)
}

impl RuleTarget {
    /// Reads a rule target from what a user typed: an IP address, a CIDR
    /// range, a domain, a URL or `host:port`.
    pub fn from_user_input(input: &str) -> (r: Option<RuleTarget>)
        ensures
            opt_target_view(r) == user_input_target(input@),
    {
        let v = chars_of(input);
        let n = v.len();
        assert(v@.subrange(0, n as int) =~= input@);
        let (a, b) = trim_range(&v, 0, n, false);
        if a == b {
            return None;
        }
        if is_cidr_at(&v, a, b) || ip_family_at(&v, a, b).is_some() {
            return Some(RuleTarget::Ip(string_of_range(&v, a, b, false)));
        }
        let (d0, d1) = domain_at(&v, a, b);
        if d0 == d1 {
            return None;
        }
        Some(RuleTarget::Domain(string_of_range(&v, d0, d1, true)))
    }

    /// The target as the user sees it.
    pub fn display(&self) -> (r: &str)
        ensures
            r@ == target_text(self@),
    {
        match self {
            RuleTarget::Ip(s) => s.as_str(),
            RuleTarget::Domain(s) => s.as_str(),
        }
    }

    pub fn is_domain(&self) -> (r: bool)
        ensures
            r == (self@ is Domain),
    {
        match self {
            RuleTarget::Domain(_) => true,
            RuleTarget::Ip(_) => false,
        }
    }
}


// ── Routing rules ───────────────────────────────────────────────────────────

/// A rule that routes a target through an interface.
#[derive(Debug, Clone)]
pub struct RoutingRule {
    /// Unique within the application.
    pub id: u64,
    pub target: RuleTarget,
    /// The addresses that the kernel routes for this rule (for a domain, the
    /// resolved ones).
    pub resolved_ips: Vec<String>,
    /// The interface that the traffic leaves through.
    pub interface: String,
    /// The `ip rule` priority, from the range that the application owns.
    pub priority: u32,
}

pub struct RuleView {
    pub id: u64,
    pub target: TargetView,
    pub resolved_ips: Seq<Seq<char>>,
    pub interface: Seq<char>,
    pub priority: u32,
}

impl View for RoutingRule {
    type V = RuleView;

    open spec fn view(&self) -> RuleView {
        RuleView {
            id: self.id,
            target: self.target@,
            resolved_ips: texts_of(self.resolved_ips@),
            interface: self.interface@,
            priority: self.priority,
        }
    }
}

/// What a rule's row shows under its target: the resolved addresses of a
/// domain, or the address of an IP rule.
pub open spec fn rule_subtitle(r: RuleView) -> Seq<char> {
    match r.target {
        TargetView::Domain(_) => join(r.resolved_ips, ", "@),
        TargetView::Ip(ip) => ip,
    }
}

impl RoutingRule {
    pub fn subtitle(&self) -> (r: String)
        ensures
            r@ == rule_subtitle(self@),
    {
        match &self.target {
            RuleTarget::Domain(_) => join_strings(&self.resolved_ips, ", "),
            RuleTarget::Ip(ip) => ip.clone(),
        }
    }
}

/// Which interface the kernel picked for one destination.
#[derive(Debug, Clone)]
pub struct RouteProbe {
    pub destination: String,
    pub family: IpFamily,
    pub interface: Option<String>,
}

/// The outcome of a route test.
#[derive(Debug, Clone)]
pub struct RouteTestReport {
    pub expected_interface: Option<String>,
    pub probes: Vec<RouteProbe>,
}

// ── Messages between the interface and the engine ───────────────────────────

/// Requests from the interface to the routing engine.
#[derive(Debug)]
pub enum UiToEngine {
    /// The user chose the interface for routed traffic; the kernel is not
    /// touched.
    SetAltInterface { interface: String },
    /// The user's choice of interface is cleared; the kernel is not touched.
    ClearAltInterface,
    /// List the network interfaces again.
    RefreshInterfaces,
    /// A new rule; whether the kernel gets it depends on whether routing is on.
    AddRule { target: RuleTarget, interface: String },
    /// Remove the rule with this id.
    RemoveRule(u64),
    /// The routing switch: on applies every rule to the kernel.
    SetActive(bool),
    /// Forget every rule and clear the kernel state.
    Reset,
    /// Ask which interface the kernel routes an address through.
    TestRoute { input: String },
    /// The application is closing.
    Shutdown,
}

/// Reports from the routing engine to the interface.
#[derive(Debug, Clone)]
pub enum EngineToUi {
    InterfacesList(Vec<NetworkInterface>),
    RuleAdded(RoutingRule),
    RuleRemoved(u64),
    ResetComplete,
    Deactivated,
    Error(String),
    StatusUpdate(String),
    /// Turning routing on failed; the interface turns the switch back off.
    ActivationFailed(String),
    /// The saved settings were loaded; the interface restores its choices.
    StateRestored { alt_interface: Option<String> },
    RouteTestComplete(RouteTestReport),
}

// ── The privileged helper's protocol ────────────────────────────────────────

/// One privileged operation for the helper.
#[derive(Debug, Clone)]
pub enum HelperOp {
    /// `ip route replace default via <gateway> dev <interface> table <table>`
    AddRoute { gateway: String, interface: String, table: u32, family: IpFamily },
    /// `ip rule add to <destination> lookup <table> priority <priority>`
    AddRule { destination: String, table: u32, priority: u32, family: IpFamily },
    /// Deletes every `ip rule` in the priority range (idempotent).
    FlushRulesInRange { min_priority: u32, max_priority: u32, family: IpFamily },
    /// `ip route flush table <table>`
    FlushTable { table: u32, family: IpFamily },
    /// `ipset create <name> hash:ip timeout <secs> family <inet|inet6>`
    IpsetCreate { name: String, family: String, timeout_secs: u32 },
    /// `ipset add <name> <ip>`
    IpsetAdd { name: String, ip: String },
    /// `ipset flush` and `destroy <name>`
    IpsetDestroy { name: String },
    /// `iptables -t mangle -A|-D <chain> -m set --match-set <set> dst -j MARK --set-mark <mark>`
    IptablesMark { chain: String, action: String, ipset_name: String, mark: u32 },
    /// `ip rule add fwmark <mark> lookup <table> priority <priority>`
    AddFwmarkRule { mark: u32, table: u32, priority: u32 },
    /// `ip rule del fwmark <mark>`
    DelFwmarkRule { mark: u32 },
    /// Writes the dnsmasq ipset directive for a domain.
    WriteDnsmasqEntry { domain: String },
    /// Removes the dnsmasq file of a domain.
    RemoveDnsmasqEntry { domain: String },
    /// Sends dnsmasq SIGHUP so that it reloads its configuration.
    ReloadDnsmasq,
}

pub enum OpView {
    AddRoute { gateway: Seq<char>, interface: Seq<char>, table: u32, family: IpFamily },
    AddRule { destination: Seq<char>, table: u32, priority: u32, family: IpFamily },
    FlushRulesInRange { min_priority: u32, max_priority: u32, family: IpFamily },
    FlushTable { table: u32, family: IpFamily },
    IpsetCreate { name: Seq<char>, family: Seq<char>, timeout_secs: u32 },
    IpsetAdd { name: Seq<char>, ip: Seq<char> },
    IpsetDestroy { name: Seq<char> },
    IptablesMark { chain: Seq<char>, action: Seq<char>, ipset_name: Seq<char>, mark: u32 },
    AddFwmarkRule { mark: u32, table: u32, priority: u32 },
    DelFwmarkRule { mark: u32 },
    WriteDnsmasqEntry { domain: Seq<char> },
    RemoveDnsmasqEntry { domain: Seq<char> },
    ReloadDnsmasq,
}

impl View for HelperOp {
    type V = OpView;

    open spec fn view(&self) -> OpView {
        match self {
            HelperOp::AddRoute { gateway, interface, table, family } => OpView::AddRoute {
                gateway: gateway@,
                interface: interface@,
                table: *table,
                family: *family,
            },
            HelperOp::AddRule { destination, table, priority, family } => OpView::AddRule {
                destination: destination@,
                table: *table,
                priority: *priority,
                family: *family,
            },
            HelperOp::FlushRulesInRange { min_priority, max_priority, family } =>
                OpView::FlushRulesInRange {
                min_priority: *min_priority,
                max_priority: *max_priority,
                family: *family,
            },
            HelperOp::FlushTable { table, family } => OpView::FlushTable {
                table: *table,
                family: *family,
            },
            HelperOp::IpsetCreate { name, family, timeout_secs } => OpView::IpsetCreate {
                name: name@,
                family: family@,
                timeout_secs: *timeout_secs,
            },
            HelperOp::IpsetAdd { name, ip } => OpView::IpsetAdd { name: name@, ip: ip@ },
            HelperOp::IpsetDestroy { name } => OpView::IpsetDestroy { name: name@ },
            HelperOp::IptablesMark { chain, action, ipset_name, mark } => OpView::IptablesMark {
                chain: chain@,
                action: action@,
                ipset_name: ipset_name@,
                mark: *mark,
            },
            HelperOp::AddFwmarkRule { mark, table, priority } => OpView::AddFwmarkRule {
                mark: *mark,
                table: *table,
                priority: *priority,
            },
            HelperOp::DelFwmarkRule { mark } => OpView::DelFwmarkRule { mark: *mark },
            HelperOp::WriteDnsmasqEntry { domain } => OpView::WriteDnsmasqEntry {
                domain: domain@,
            },
            HelperOp::RemoveDnsmasqEntry { domain } => OpView::RemoveDnsmasqEntry {
                domain: domain@,
            },
            HelperOp::ReloadDnsmasq => OpView::ReloadDnsmasq,
        }
    }
}

pub open spec fn ops_view(ops: Seq<HelperOp>) -> Seq<OpView> {
    ops.map_values(|o: HelperOp| o@)
}

/// A batch of operations for the helper.
#[derive(Debug)]
pub struct HelperRequest {
    pub ops: Vec<HelperOp>,
}

/// The helper's answer: success when every operation succeeded.
#[derive(Debug)]
pub struct HelperResponse {
    pub success: bool,
    pub errors: Vec<String>,
}

} // verus!
