//! How the application finds its helper, reads what `ip` reports, and reads
//! the outcome of a batch.
use vstd::prelude::*;

use crate::helper::{family_arg, family_flag};
use crate::models::{HelperResponse, IpFamily, NetworkInterface, RouteProbe};
use crate::text::{
    append_str, chars_of, join, join_strings, range_pieces, str_eq, string_of, string_of_range,
    texts_of, trim, trim_range, trim_str, ws_token_ranges, ws_tokens,
};

verus! {

/// The routing table that the application owns.
pub const ROUTELANE_TABLE: u32 = 100;
/// The `ip rule` priorities that the application owns.
pub const PRIORITY_BASE: u32 = 10_000;
pub const PRIORITY_MAX: u32 = 10_999;

// ── Where the helper is ─────────────────────────────────────────────────────

/// The path that the Polkit policy names.
pub open spec fn policy_helper_path() -> Seq<char> {
    "/usr/lib/routelane/routelane-helper"@
}

/// Where older packages installed the helper.
pub open spec fn legacy_helper_path() -> Seq<char> {
    "/usr/bin/routelane-helper"@
}

/// What `Path::parent` gives for a path, as text.
pub uninterp spec fn path_parent(p: Seq<char>) -> Option<Seq<char>>;

/// What `Path::join` gives, as text.
pub uninterp spec fn path_join(base: Seq<char>, name: Seq<char>) -> Seq<char>;

/// Calls `Path::parent` on `p` and gives the parent as text. Trusted: the
/// contract claims only that the result depends on `p` alone (named
/// `path_parent`); how a path is cut is left to the standard library.
#[verifier::external_body]
fn parent_of(p: &str) -> (r: Option<String>)
    ensures
        r matches Some(s) ==> path_parent(p@) == Some(s@),
        r is None ==> path_parent(p@) is None,
{
    std::path::Path::new(p).parent().map(|d| d.to_string_lossy().into_owned())
}

/// Calls `Path::join` and gives the joined path as text. Trusted: the
/// contract claims only that the result depends on the two arguments alone
/// (named `path_join`).
#[verifier::external_body]
fn joined_path(base: &str, name: &str) -> (r: String)
    ensures
        r@ == path_join(base@, name@),
{
    std::path::Path::new(base).join(name).to_string_lossy().into_owned()
}

/// `routelane-helper` beside the running program.
pub open spec fn sibling_helper(current_exe: Option<Seq<char>>) -> Option<Seq<char>> {
    match current_exe {
        Some(exe) => match path_parent(exe) {
            Some(dir) => Some(path_join(dir, "routelane-helper"@)),
            None => None,
        },
        None => None,
    }
}

/// The places where the helper may be, in order of preference: the policy
/// path, the path from the environment, beside the program, the old path.
pub open spec fn helper_candidates(env_path: Option<Seq<char>>, sibling: Option<Seq<char>>) -> Seq<
    Seq<char>,
> {
    seq![policy_helper_path()] + (match env_path {
        Some(e) => seq![e],
        None => Seq::empty(),
    }) + (match sibling {
        Some(s) => seq![s],
        None => Seq::empty(),
    }) + seq![legacy_helper_path()]
}

/// The path used when no candidate is a file.
pub open spec fn helper_fallback(env_path: Option<Seq<char>>, sibling: Option<Seq<char>>) -> Seq<
    char,
> {
    match env_path {
        Some(e) => e,
        None => match sibling {
            Some(s) => s,
            None => policy_helper_path(),
        },
    }
}

/// `is_file` answered `answer` for a path with the text `p`.
pub open spec fn reported<F: Fn(&str) -> bool>(is_file: F, p: Seq<char>, answer: bool) -> bool {
    exists|s: &str| s@ == p && call_ensures(is_file, (s,), answer)
}

pub open spec fn opt_view(o: Option<String>) -> Option<Seq<char>> {
    match o {
        Some(s) => Some(s@),
        None => None,
    }
}

/// Where to run the helper from: the first candidate that `is_file`
/// reports as a file; else the path from the environment, the one beside the
/// program, or the policy path, in that order.
pub fn resolve_helper_path_from(
    env_path: Option<String>,
    current_exe: Option<String>,
    is_file: impl Fn(&str) -> bool,
) -> (r: String)
    requires
        forall|s: &str| call_requires(is_file, (s,)),
    ensures
        ({
            let c = helper_candidates(opt_view(env_path), sibling_helper(opt_view(current_exe)));
            ||| exists|i: int|
                0 <= i < c.len() && r@ == c[i] && reported(is_file, c[i], true) && forall|j: int|
                    0 <= j < i ==> reported(is_file, #[trigger] c[j], false)
            ||| r@ == helper_fallback(opt_view(env_path), sibling_helper(opt_view(current_exe)))
                && forall|j: int| 0 <= j < c.len() ==> reported(is_file, #[trigger] c[j], false)
        }),
{
    let sibling: Option<String> = match &current_exe {
        Some(exe) => match parent_of(exe.as_str()) {
            Some(dir) => Some(joined_path(dir.as_str(), "routelane-helper")),
            None => None,
        },
        None => None,
    };
    let ghost sib = opt_view(sibling);
    assert(sib == sibling_helper(opt_view(current_exe)));
    let mut candidates: Vec<String> = Vec::new();
    candidates.push(string_of("/usr/lib/routelane/routelane-helper"));
    match &env_path {
        Some(p) => candidates.push(p.clone()),
        None => {},
    }
    match &sibling {
        Some(p) => candidates.push(p.clone()),
        None => {},
    }
    candidates.push(string_of("/usr/bin/routelane-helper"));
    let ghost c = helper_candidates(opt_view(env_path), sib);
    assert(texts_of(candidates@) =~= c);
    let mut i: usize = 0;
    while i < candidates.len()
        invariant
            i <= candidates.len(),
            texts_of(candidates@) == c,
            c == helper_candidates(opt_view(env_path), sibling_helper(opt_view(current_exe))),
            forall|s: &str| call_requires(is_file, (s,)),
            forall|j: int| 0 <= j < i ==> reported(is_file, #[trigger] c[j], false),
        decreases candidates.len() - i,
    {
        let p = candidates[i].as_str();
        assert(p@ == c[i as int]);
        let found = is_file(p);
        if found {
            assert(reported(is_file, c[i as int], true));
            let r = candidates[i].clone();
            assert(r@ == c[i as int]);
            assert(0 <= i < c.len() && r@ == c[i as int] && reported(is_file, c[i as int], true)
                && forall|j: int| 0 <= j < i ==> reported(is_file, #[trigger] c[j], false));
            return r;
        }
        assert(reported(is_file, c[i as int], false));
        i = i + 1;
    }
    match env_path {
        Some(p) => p,
        None => match sibling {
            Some(s) => s,
            None => string_of("/usr/lib/routelane/routelane-helper"),
        },
    }
}

/// Runs privileged operations through the helper at a fixed path.
pub struct Executor {
    helper_path: String,
}

impl Executor {
    /// An executor for the helper at `helper_path`.
    pub fn new(helper_path: String) -> (r: Executor)
        ensures
            r.helper_path_text() == helper_path@,
    {
        Executor { helper_path }
    }

    pub closed spec fn helper_path_text(&self) -> Seq<char> {
        self.helper_path@
    }

    /// The helper that the executor runs.
    pub fn helper_path(&self) -> (r: &str)
        ensures
            r@ == self.helper_path_text(),
    {
        self.helper_path.as_str()
    }
}


// ── The outcome of a batch ──────────────────────────────────────────────────

pub open spec fn response_view(r: Option<HelperResponse>) -> Option<(bool, Seq<Seq<char>>)> {
    match r {
        Some(resp) => Some((resp.success, texts_of(resp.errors@))),
        None => None,
    }
}

/// The outcome of running a batch: the helper's exit status, its error
/// output, and its answer if the answer could be read.
pub open spec fn batch_outcome_of(
    exit_success: bool,
    stderr: Seq<char>,
    response: Option<(bool, Seq<Seq<char>>)>,
) -> Result<(), Seq<char>> {
    if !exit_success {
        Err("routelane-helper başarısız: "@ + trim(stderr, false))
    } else {
        match response {
            None => Err("helper yanıtı ayrıştırılamadı"@),
            Some((success, errors)) => if !success {
                Err("Komutlar kısmen başarısız: "@ + join(errors, "; "@))
            } else {
                Ok(())
            },
        }
    }
}

pub open spec fn unit_result(r: Result<(), String>) -> Result<(), Seq<char>> {
    match r {
        Ok(_) => Ok(()),
        Err(e) => Err(e@),
    }
}

impl Executor {
    /// Reads the outcome of a batch that the helper ran: a failed exit, an
    /// answer that could not be read, and an answer that reports errors are
    /// errors.
    pub fn batch_outcome(exit_success: bool, stderr: &str, response: Option<HelperResponse>) -> (r:
        Result<(), String>)
        ensures
            unit_result(r) == batch_outcome_of(exit_success, stderr@, response_view(response)),
    {
        if !exit_success {
            let v = chars_of(stderr);
            let n = v.len();
            assert(v@.subrange(0, n as int) =~= stderr@);
            let (a, b) = trim_range(&v, 0, n, false);
            let mut m = string_of("routelane-helper başarısız: ");
            let t = string_of_range(&v, a, b, false);
            append_str(&mut m, t.as_str());
            return Err(m);
        }
        match response {
            None => Err(string_of("helper yanıtı ayrıştırılamadı")),
            Some(resp) => {
                if !resp.success {
                    let mut m = string_of("Komutlar kısmen başarısız: ");
                    let j = join_strings(&resp.errors, "; ");
                    append_str(&mut m, j.as_str());
                    Err(m)
                } else {
                    Ok(())
                }
            },
        }
    }
}

// ── What `ip --json` reports ────────────────────────────────────────────────

/// The fields of one object of `ip --json` output that the application
/// reads; a field that is missing or of another type is `None`.
#[derive(Debug, Clone)]
pub struct IpJsonEntry {
    pub priority: Option<u64>,
    pub dst: Option<String>,
    pub dev: Option<String>,
    pub gateway: Option<String>,
    pub metric: Option<u64>,
    pub ifname: Option<String>,
}

pub struct IpJsonView {
    pub priority: Option<u64>,
    pub dst: Option<Seq<char>>,
    pub dev: Option<Seq<char>>,
    pub gateway: Option<Seq<char>>,
    pub metric: Option<u64>,
    pub ifname: Option<Seq<char>>,
}

impl View for IpJsonEntry {
    type V = IpJsonView;

    open spec fn view(&self) -> IpJsonView {
        IpJsonView {
            priority: self.priority,
            dst: opt_view(self.dst),
            dev: opt_view(self.dev),
            gateway: opt_view(self.gateway),
            metric: self.metric,
            ifname: opt_view(self.ifname),
        }
    }
}

pub open spec fn entries_view(v: Seq<IpJsonEntry>) -> Seq<IpJsonView> {
    v.map_values(|e: IpJsonEntry| e@)
}

/// What `serde_json` reads from `ip --json` output: the fields of each
/// object of the top-level array, or `None` when the bytes are no JSON
/// array.
pub uninterp spec fn ip_json_entries(bytes: Seq<u8>) -> Option<Seq<IpJsonView>>;

/// Calls `serde_json::from_slice::<Vec<serde_json::Value>>` and takes out
/// the six fields that the application reads from each element (a field
/// that is missing or of another JSON type is `None`). Trusted: the
/// contract claims only that the result depends on the bytes alone (named
/// `ip_json_entries`); what JSON `serde_json` accepts is left unsaid.
#[verifier::external_body]
fn parse_ip_json(bytes: &[u8]) -> (r: Option<Vec<IpJsonEntry>>)
    ensures
        ip_json_entries(bytes@) == (match r {
            Some(v) => Some(entries_view(v@)),
            None => None,
        }),
{
    let values: Vec<serde_json::Value> = serde_json::from_slice(bytes).ok()?;
    let text = |v: &serde_json::Value, k: &str| v.get(k).and_then(|x| x.as_str()).map(String::from);
    let num = |v: &serde_json::Value, k: &str| v.get(k).and_then(|x| x.as_u64());
    Some(values.iter().map(|v| IpJsonEntry {
        priority: num(v, "priority"),
        dst: text(v, "dst"),
        dev: text(v, "dev"),
        gateway: text(v, "gateway"),
        metric: num(v, "metric"),
        ifname: text(v, "ifname"),
    }).collect())
}

/// The entries of `ip --json` output; none when it cannot be read.
pub open spec fn entries_or_empty(bytes: Seq<u8>) -> Seq<IpJsonView> {
    match ip_json_entries(bytes) {
        Some(es) => es,
        None => Seq::empty(),
    }
}

pub open spec fn in_owned_range(p: Option<u64>) -> bool {
    p matches Some(x) && PRIORITY_BASE <= x <= PRIORITY_MAX
}

/// Whether a rule list holds a rule in the application's priority range.
pub open spec fn holds_owned_rule(es: Seq<IpJsonView>) -> bool {
    exists|i: int| 0 <= i < es.len() && in_owned_range(#[trigger] es[i].priority)
}

/// Whether `ip --json rule list` output (`None`: `ip` did not run) shows a
/// rule in the application's priority range.
pub open spec fn leftover_in(output: Option<Seq<u8>>) -> bool {
    match output {
        Some(b) => holds_owned_rule(entries_or_empty(b)),
        None => false,
    }
}

/// Whether the rule entries hold one in the application's priority range.
pub fn has_owned_rule(entries: &Vec<IpJsonEntry>) -> (r: bool)
    ensures
        r == holds_owned_rule(entries_view(entries@)),
{
    let mut i: usize = 0;
    while i < entries.len()
        invariant
            i <= entries.len(),
            forall|j: int| 0 <= j < i ==> !in_owned_range(#[trigger] entries_view(entries@)[j].priority),
        decreases entries.len() - i,
    {
        assert(entries_view(entries@)[i as int] == entries[i as int]@);
        match entries[i].priority {
            Some(p) => {
                if PRIORITY_BASE as u64 <= p && p <= PRIORITY_MAX as u64 {
                    assert(in_owned_range(entries_view(entries@)[i as int].priority));
                    return true;
                }
            },
            None => {},
        }
        i = i + 1;
    }
    false
}

/// The entries that output holds, or none.
fn entries_from(bytes: &[u8]) -> (r: Vec<IpJsonEntry>)
    ensures
        entries_view(r@) == entries_or_empty(bytes@),
{
    match parse_ip_json(bytes) {
        Some(v) => v,
        None => {
            let v: Vec<IpJsonEntry> = Vec::new();
            assert(entries_view(v@) =~= Seq::<IpJsonView>::empty());
            v
        },
    }
}

pub open spec fn opt_bytes(o: Option<Vec<u8>>) -> Option<Seq<u8>> {
    match o {
        Some(b) => Some(b@),
        None => None,
    }
}

/// Whether the kernel holds rules of an earlier run, from the IPv4 and IPv6
/// `ip --json rule list` outputs (`None`: `ip` did not run); no privileges
/// are needed to ask.
pub fn has_leftover_rules(v4_output: Option<Vec<u8>>, v6_output: Option<Vec<u8>>) -> (r: bool)
    ensures
        r == (leftover_in(opt_bytes(v4_output)) || leftover_in(opt_bytes(v6_output))),
{
    let v4 = match &v4_output {
        Some(b) => has_owned_rule(&entries_from(b.as_slice())),
        None => false,
    };
    if v4 {
        return true;
    }
    match &v6_output {
        Some(b) => has_owned_rule(&entries_from(b.as_slice())),
        None => false,
    }
}

/// The priorities of the listed rules that lie in `[min, max]`, in order.
pub open spec fn priorities_in(es: Seq<IpJsonView>, min: u32, max: u32) -> Seq<u32>
    decreases es.len(),
{
    if es.len() == 0 {
        Seq::empty()
    } else {
        let init = priorities_in(es.drop_last(), min, max);
        match es.last().priority {
            Some(p) => if min <= p <= max {
                init.push(p as u32)
            } else {
                init
            },
            None => init,
        }
    }
}

/// Which priorities to delete, from `ip --json rule list` output.
pub fn flush_targets(output: &[u8], min: u32, max: u32) -> (r: Vec<u32>)
    ensures
        r@ == priorities_in(entries_or_empty(output@), min, max),
{
    let entries = entries_from(output);
    let ghost all = entries_view(entries@);
    let mut r: Vec<u32> = Vec::new();
    let mut i: usize = 0;
    assert(all.take(0) =~= Seq::<IpJsonView>::empty());
    while i < entries.len()
        invariant
            i <= entries.len(),
            all == entries_view(entries@),
            r@ == priorities_in(all.take(i as int), min, max),
        decreases entries.len() - i,
    {
        assert(all.take(i + 1).drop_last() =~= all.take(i as int));
        assert(all.take(i + 1).last() == entries[i as int]@);
        match entries[i].priority {
            Some(p) => {
                if min as u64 <= p && p <= max as u64 {
                    r.push(p as u32);
                }
            },
            None => {},
        }
        i = i + 1;
    }
    assert(all.take(entries.len() as int) =~= all);
    r
}

/// `s` is `Some(t)`.
fn text_is(s: &Option<String>, t: &str) -> (r: bool)
    ensures
        r == (opt_view(*s) == Some(t@)),
{
    match s {
        Some(x) => str_eq(x.as_str(), t),
        None => false,
    }
}

pub open spec fn metric_or_max(e: IpJsonView) -> u64 {
    match e.metric {
        Some(m) => m,
        None => u64::MAX,
    }
}

pub open spec fn is_default_route(e: IpJsonView) -> bool {
    e.dst == Some("default"@)
}

/// Entry `k` is the default route of least metric, the first of them when
/// several tie.
pub open spec fn is_best_default(es: Seq<IpJsonView>, k: int) -> bool {
    &&& 0 <= k < es.len()
    &&& is_default_route(es[k])
    &&& forall|j: int|
        0 <= j < es.len() && is_default_route(#[trigger] es[j]) ==> (metric_or_max(es[k])
            < metric_or_max(es[j]) || (metric_or_max(es[k]) == metric_or_max(es[j]) && k <= j))
}

/// The interface of the default route of least metric.
pub open spec fn default_route_dev(es: Seq<IpJsonView>) -> Option<Seq<char>> {
    if exists|k: int| is_best_default(es, k) {
        es[choose|k: int| is_best_default(es, k)].dev
    } else {
        None
    }
}

/// The interface that carries the system's default route, from
/// `ip --json route show default` output (`None`: `ip` did not run).
pub fn detect_default_interface(output: Option<Vec<u8>>) -> (r: Option<String>)
    ensures
        opt_view(r) == (match opt_bytes(output) {
            Some(b) => match ip_json_entries(b) {
                Some(es) => default_route_dev(es),
                None => None,
            },
            None => None,
        }),
{
    let bytes = match &output {
        Some(b) => b,
        None => return None,
    };
    let entries = match parse_ip_json(bytes.as_slice()) {
        Some(v) => v,
        None => return None,
    };
    let ghost es = entries_view(entries@);
    let mut best: Option<usize> = None;
    let mut i: usize = 0;
    while i < entries.len()
        invariant
            i <= entries.len(),
            es == entries_view(entries@),
            match best {
                Some(k) => k < i && is_default_route(es[k as int]) && forall|j: int|
                    0 <= j < i && is_default_route(#[trigger] es[j]) ==> (metric_or_max(
                        es[k as int],
                    ) < metric_or_max(es[j]) || (metric_or_max(es[k as int]) == metric_or_max(es[j])
                        && k <= j)),
                None => forall|j: int| 0 <= j < i ==> !is_default_route(#[trigger] es[j]),
            },
        decreases entries.len() - i,
    {
        assert(es[i as int] == entries[i as int]@);
        if text_is(&entries[i].dst, "default") {
            let m = match entries[i].metric {
                Some(m) => m,
                None => u64::MAX,
            };
            match best {
                None => {
                    best = Some(i);
                },
                Some(k) => {
                    assert(es[k as int] == entries[k as int]@);
                    let bm = match entries[k].metric {
                        Some(m) => m,
                        None => u64::MAX,
                    };
                    if m < bm {
                        best = Some(i);
                    }
                },
            }
        }
        i = i + 1;
    }
    match best {
        None => {
            assert(!exists|k: int| is_best_default(es, k));
            None
        },
        Some(k) => {
            proof {
                assert(is_best_default(es, k as int));
                let k0 = choose|k1: int| is_best_default(es, k1);
                assert(is_best_default(es, k0));
                assert(k0 == k);
            }
            assert(es[k as int] == entries[k as int]@);
            match &entries[k].dev {
                Some(d) => Some(d.clone()),
                None => None,
            }
        },
    }
}

/// A default route with a gateway: `dst` is `default` (or, for IPv6,
/// `::/0`).
pub open spec fn is_gateway_route(e: IpJsonView, v6: bool) -> bool {
    &&& (e.dst == Some("default"@) || (v6 && e.dst == Some("::/0"@)))
    &&& e.gateway is Some
}

/// The gateway of the first default route that names one.
pub open spec fn first_gateway(es: Seq<IpJsonView>, v6: bool) -> Option<Seq<char>> {
    if exists|k: int| 0 <= k < es.len() && is_gateway_route(#[trigger] es[k], v6) {
        let k = choose|k: int|
            0 <= k < es.len() && is_gateway_route(es[k], v6) && forall|j: int|
                0 <= j < k ==> !is_gateway_route(#[trigger] es[j], v6);
        es[k].gateway
    } else {
        None
    }
}

pub open spec fn gateway_in(output: Option<Seq<u8>>, v6: bool) -> Option<Seq<char>> {
    match output {
        Some(b) => match ip_json_entries(b) {
            Some(es) => first_gateway(es, v6),
            None => None,
        },
        None => None,
    }
}

fn find_gateway(output: Option<Vec<u8>>, v6: bool) -> (r: Option<String>)
    ensures
        opt_view(r) == gateway_in(opt_bytes(output), v6),
{
    let bytes = match &output {
        Some(b) => b,
        None => return None,
    };
    let entries = match parse_ip_json(bytes.as_slice()) {
        Some(v) => v,
        None => return None,
    };
    let ghost es = entries_view(entries@);
    let mut i: usize = 0;
    while i < entries.len()
        invariant
            i <= entries.len(),
            es == entries_view(entries@),
            ip_json_entries(bytes@) == Some(es),
            opt_bytes(output) == Some(bytes@),
            forall|j: int| 0 <= j < i ==> !is_gateway_route(#[trigger] es[j], v6),
        decreases entries.len() - i,
    {
        assert(es[i as int] == entries[i as int]@);
        let e = &entries[i];
        if text_is(&e.dst, "default") || (v6 && text_is(&e.dst, "::/0")) {
            match &e.gateway {
                Some(g) => {
                    proof {
                        assert(is_gateway_route(es[i as int], v6));
                        let k0 = choose|k: int|
                            0 <= k < es.len() && is_gateway_route(es[k], v6) && forall|j: int|
                                0 <= j < k ==> !is_gateway_route(#[trigger] es[j], v6);
                        assert(0 <= k0 < es.len() && is_gateway_route(es[k0], v6));
                        if k0 < i {
                            assert(!is_gateway_route(es[k0], v6));
                        }
                        if i < k0 {
                            assert(!is_gateway_route(es[i as int], v6));
                        }
                    }
                    return Some(g.clone());
                },
                None => {},
            }
        }
        i = i + 1;
    }
    None
}

/// The IPv4 default gateway of an interface, from
/// `ip --json route show dev <interface>` output (`None`: `ip` did not run).
pub fn detect_gateway(output: Option<Vec<u8>>) -> (r: Option<String>)
    ensures
        opt_view(r) == gateway_in(opt_bytes(output), false),
{
    find_gateway(output, false)
}

/// The IPv6 default gateway of an interface, from
/// `ip -6 --json route show default dev <interface>` output.
pub fn detect_gateway_v6(output: Option<Vec<u8>>) -> (r: Option<String>)
    ensures
        opt_view(r) == gateway_in(opt_bytes(output), true),
{
    find_gateway(output, true)
}

/// The interface names of a link list, in order, without the loopback.
pub open spec fn link_names(es: Seq<IpJsonView>) -> Seq<Seq<char>>
    decreases es.len(),
{
    if es.len() == 0 {
        Seq::empty()
    } else {
        let init = link_names(es.drop_last());
        match es.last().ifname {
            Some(n) => if n == "lo"@ {
                init
            } else {
                init.push(n)
            },
            None => init,
        }
    }
}

/// The interfaces to offer, from `ip --json link show` output (`None`:
/// `ip` did not run).
pub fn interface_names(output: Option<Vec<u8>>) -> (r: Vec<String>)
    ensures
        texts_of(r@) == (match opt_bytes(output) {
            Some(b) => link_names(entries_or_empty(b)),
            None => Seq::empty(),
        }),
{
    let entries = match &output {
        Some(b) => entries_from(b.as_slice()),
        None => {
            let r: Vec<String> = Vec::new();
            assert(texts_of(r@) =~= Seq::<Seq<char>>::empty());
            return r;
        },
    };
    let ghost all = entries_view(entries@);
    let mut r: Vec<String> = Vec::new();
    let mut i: usize = 0;
    assert(all.take(0) =~= Seq::<IpJsonView>::empty());
    assert(texts_of(r@) =~= Seq::<Seq<char>>::empty());
    while i < entries.len()
        invariant
            i <= entries.len(),
            all == entries_view(entries@),
            texts_of(r@) == link_names(all.take(i as int)),
        decreases entries.len() - i,
    {
        assert(all.take(i + 1).drop_last() =~= all.take(i as int));
        assert(all.take(i + 1).last() == entries[i as int]@);
        match &entries[i].ifname {
            Some(n) => {
                if !str_eq(n.as_str(), "lo") {
                    let ghost before = r@;
                    r.push(n.clone());
                    assert(texts_of(r@) =~= texts_of(before).push(n@));
                }
            },
            None => {},
        }
        i = i + 1;
    }
    assert(all.take(entries.len() as int) =~= all);
    r
}

/// An interface of the list: whether it carries the default route, and its
/// gateway.
pub fn network_interface(name: String, default_iface: &Option<String>, gateway: Option<String>) -> (r:
    NetworkInterface)
    ensures
        r.name@ == name@,
        r.is_default == (opt_view(*default_iface) == Some(name@)),
        opt_view(r.gateway) == opt_view(gateway),
{
    let is_default = text_is(default_iface, name.as_str());
    NetworkInterface { name, gateway, is_default }
}

// ── What `ip route get` reports ─────────────────────────────────────────────

/// Word `k` is `dev` with a word after it, and no earlier word is `dev`.
pub open spec fn is_first_dev(toks: Seq<Seq<char>>, k: int) -> bool {
    &&& 0 <= k && k + 1 < toks.len()
    &&& toks[k] == "dev"@
    &&& forall|j: int| 0 <= j < k ==> toks[j] != "dev"@
}

/// The word after the first `dev` of `ip route get` output.
pub open spec fn route_dev(raw: Seq<char>) -> Option<Seq<char>> {
    let toks = ws_tokens(raw);
    if exists|k: int| is_first_dev(toks, k) {
        Some(toks[(choose|k: int| is_first_dev(toks, k)) + 1])
    } else {
        None
    }
}

/// The interface that `ip route get` output names after `dev`.
pub fn parse_route_get_output(raw: &str) -> (r: Option<String>)
    ensures
        opt_view(r) == route_dev(raw@),
{
    let v = chars_of(raw);
    let n = v.len();
    assert(v@.subrange(0, n as int) =~= raw@);
    let toks = ws_token_ranges(&v, 0, n);
    let ghost ts = ws_tokens(raw@);
    let dev = chars_of("dev");
    let mut i: usize = 0;
    while i < toks.len() && toks.len() - i > 1
        invariant
            i <= toks.len(),
            ts == ws_tokens(raw@),
            ts == range_pieces(v@, toks@),
            dev@ == "dev"@,
            forall|k: int| 0 <= k < toks.len() ==> #[trigger] toks[k].0 <= toks[k].1 <= v.len(),
            forall|j: int| 0 <= j < i ==> ts[j] != "dev"@,
        decreases toks.len() - i,
    {
        let (a, b) = toks[i];
        let w = string_of_range(&v, a, b, false);
        assert(ts[i as int] == w@);
        if str_eq(w.as_str(), "dev") {
            let (c, d) = toks[i + 1];
            assert(ts[i + 1] == v@.subrange(c as int, d as int));
            proof {
                assert(is_first_dev(ts, i as int));
                let k0 = choose|k: int| is_first_dev(ts, k);
                assert(is_first_dev(ts, k0));
                if k0 < i {
                    assert(ts[k0] != "dev"@);
                }
                if i < k0 {
                    assert(ts[i as int] != "dev"@);
                }
            }
            return Some(string_of_range(&v, c, d, false));
        }
        i = i + 1;
    }
    assert forall|k: int| !is_first_dev(ts, k) by {
        if 0 <= k && k + 1 < ts.len() && ts[k] == "dev"@ {
            assert(k < i);
        }
    }
    None
}

/// The `ip` arguments that ask which route the kernel takes to an address.
pub fn route_get_args(destination: &str, family: IpFamily) -> (r: Vec<String>)
    ensures
        texts_of(r@) == seq![family_flag(family), "route"@, "get"@, destination@],
{
    let mut r: Vec<String> = Vec::new();
    r.push(string_of(family_arg(family)));
    r.push(string_of("route"));
    r.push(string_of("get"));
    r.push(string_of(destination));
    assert(texts_of(r@) =~= seq![family_flag(family), "route"@, "get"@, destination@]);
    r
}

/// What a route query of `ip route get` shows (`None`: `ip` did not start;
/// else its exit status, output and error output): the interface named
/// after `dev`, or the error.
pub open spec fn probe_of(
    destination: Seq<char>,
    family: IpFamily,
    output: Option<(bool, Seq<char>, Seq<char>)>,
) -> Result<(Seq<char>, IpFamily, Option<Seq<char>>), Seq<char>> {
    match output {
        None => Err(destination + " için rota sorgusu başlatılamadı"@),
        Some((success, stdout, stderr)) => if !success {
            Err(destination + " için rota bulunamadı: "@ + trim(stderr, false))
        } else {
            Ok((destination, family, route_dev(trim(stdout, false))))
        },
    }
}

pub open spec fn query_view(o: Option<(bool, String, String)>) -> Option<(bool, Seq<char>, Seq<char>)> {
    match o {
        Some((b, out, err)) => Some((b, out@, err@)),
        None => None,
    }
}

pub open spec fn probe_view(r: Result<RouteProbe, String>) -> Result<
    (Seq<char>, IpFamily, Option<Seq<char>>),
    Seq<char>,
> {
    match r {
        Ok(p) => Ok((p.destination@, p.family, opt_view(p.interface))),
        Err(e) => Err(e@),
    }
}

/// The route that the kernel takes to `destination`, from the outcome of
/// `ip <family> route get <destination>`; no privileges are needed.
pub fn probe_route(destination: String, family: IpFamily, output: Option<(bool, String, String)>) -> (r:
    Result<RouteProbe, String>)
    ensures
        probe_view(r) == probe_of(destination@, family, query_view(output)),
{
    match output {
        None => {
            let mut m = destination.clone();
            append_str(&mut m, " için rota sorgusu başlatılamadı");
            Err(m)
        },
        Some((success, stdout, stderr)) => {
            if !success {
                let mut m = destination.clone();
                append_str(&mut m, " için rota bulunamadı: ");
                let t = trim_str(stderr.as_str());
                append_str(&mut m, t.as_str());
                Err(m)
            } else {
                let raw = trim_str(stdout.as_str());
                let interface = parse_route_get_output(raw.as_str());
                Ok(RouteProbe { destination, family, interface })
            }
        },
    }
}

} // verus!
