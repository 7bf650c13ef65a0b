//! What the main window shows: which interface stays selected when the list
//! changes, the default connection's line, the rows of rules, and the
//! summary of a route test.
use vstd::prelude::*;

use crate::config::Language;
use crate::executor::opt_view;
use crate::i18n::{gateway_subtitle, sample_more, texts_of_language, Texts};
use crate::models::{
    rule_subtitle, user_input_target, IpFamily, NetworkInterface, RouteProbe, RouteTestReport,
    RoutingRule, RuleTarget, TargetView, UiToEngine,
};
use crate::text::{
    append_str, chars_of, join, join_strings, str_eq, string_of, texts_of, trim, trim_str,
};

verus! {

// ── The interface list ──────────────────────────────────────────────────────

/// Position `k` holds `name` and no earlier position does.
pub open spec fn is_first_position(names: Seq<Seq<char>>, name: Seq<char>, k: int) -> bool {
    &&& 0 <= k < names.len()
    &&& names[k] == name
    &&& forall|j: int| 0 <= j < k ==> names[j] != name
}

/// Where the previously selected interface is in the new list, if it is.
pub fn refreshed_interface_selection(previous_name: Option<&str>, names: &[String]) -> (r: Option<
    usize,
>)
    ensures
        match previous_name {
            None => r is None,
            Some(p) => match r {
                Some(k) => is_first_position(texts_of(names@), p@, k as int),
                None => !texts_of(names@).contains(p@),
            },
        },
{
    let p = match previous_name {
        Some(p) => p,
        None => return None,
    };
    let mut i: usize = 0;
    while i < names.len()
        invariant
            i <= names.len(),
            previous_name == Some(p),
            forall|j: int| 0 <= j < i ==> texts_of(names@)[j] != p@,
        decreases names.len() - i,
    {
        assert(texts_of(names@)[i as int] == names@[i as int]@);
        if str_eq(names[i].as_str(), p) {
            return Some(i);
        }
        i = i + 1;
    }
    None
}

pub open spec fn iface_view(i: NetworkInterface) -> (Seq<char>, Option<Seq<char>>, bool) {
    (i.name@, opt_view(i.gateway), i.is_default)
}

/// The line of the default connection: the first interface that carries the
/// default route, with its gateway (`?` if it has none); else, for an empty
/// list while it is still loading, that it is being detected; else that
/// none was found.
pub open spec fn default_line(
    l: Language,
    ifaces: Seq<(Seq<char>, Option<Seq<char>>, bool)>,
    loading: bool,
) -> Seq<char> {
    if exists|k: int| 0 <= k < ifaces.len() && (#[trigger] ifaces[k]).2 {
        let k = choose|k: int|
            0 <= k < ifaces.len() && ifaces[k].2 && forall|j: int|
                0 <= j < k ==> !(#[trigger] ifaces[j]).2;
        gateway_subtitle(
            l,
            ifaces[k].0,
            match ifaces[k].1 {
                Some(g) => g,
                None => "?"@,
            },
        )
    } else if loading && ifaces.len() == 0 {
        texts_of_language(l).detecting
    } else {
        texts_of_language(l).default_not_found
    }
}

/// The default connection's line for the interface list; `loading` tells
/// whether an empty list means that the list is still being read.
pub fn default_connection_subtitle(
    language: Language,
    ifaces: &Vec<NetworkInterface>,
    loading: bool,
) -> (r: String)
    ensures
        r@ == default_line(language, ifaces@.map_values(|i: NetworkInterface| iface_view(i)), loading),
{
    let ghost iv = ifaces@.map_values(|i: NetworkInterface| iface_view(i));
    let texts = language.texts();
    let mut i: usize = 0;
    while i < ifaces.len()
        invariant
            i <= ifaces.len(),
            iv == ifaces@.map_values(|i: NetworkInterface| iface_view(i)),
            forall|j: int| 0 <= j < i ==> !(#[trigger] iv[j]).2,
        decreases ifaces.len() - i,
    {
        assert(iv[i as int] == iface_view(ifaces@[i as int]));
        if ifaces[i].is_default {
            proof {
                assert(iv[i as int].2);
                let k0 = choose|k: int|
                    0 <= k < iv.len() && iv[k].2 && forall|j: int| 0 <= j < k ==> !(#[trigger] iv[j]).2;
                assert(0 <= k0 < iv.len() && iv[k0].2);
                if k0 < i {
                    assert(!iv[k0].2);
                }
                if i < k0 {
                    assert(!iv[i as int].2);
                }
            }
            let gw = match &ifaces[i].gateway {
                Some(g) => g.as_str(),
                None => "?",
            };
            return language.default_gateway_subtitle(ifaces[i].name.as_str(), gw);
        }
        i = i + 1;
    }
    if loading && ifaces.len() == 0 {
        string_of(texts.detecting)
    } else {
        string_of(texts.default_not_found)
    }
}

/// The line under the exception network choice: no interfaces, none
/// chosen, or the chosen one.
pub fn exception_network_subtitle(texts: Texts, no_interfaces: bool, selected: bool) -> (r:
    &'static str)
    ensures
        r@ == (if no_interfaces {
            texts@.no_interfaces
        } else if !selected {
            texts@.exception_select_prompt
        } else {
            texts@.exception_subtitle
        }),
{
    if no_interfaces {
        texts.no_interfaces
    } else if !selected {
        texts.exception_select_prompt
    } else {
        texts.exception_subtitle
    }
}

/// The line under a rule's target: a domain not resolved yet is being
/// resolved; else its addresses, or an IP rule's address.
pub fn rule_row_subtitle(rule: &RoutingRule, texts: Texts) -> (r: String)
    ensures
        r@ == (if rule@.target is Domain && rule@.resolved_ips.len() == 0 {
            texts@.resolving
        } else {
            rule_subtitle(rule@)
        }),
{
    if rule.target.is_domain() && rule.resolved_ips.len() == 0 {
        string_of(texts.resolving)
    } else {
        rule.subtitle()
    }
}

// ── Route test summary ──────────────────────────────────────────────────────

/// Lexicographic order by character, which for UTF-8 is the order of
/// `String`'s bytes.
pub open spec fn lex_lt(a: Seq<char>, b: Seq<char>) -> bool
    decreases a.len(),
{
    if a.len() == 0 {
        b.len() > 0
    } else if b.len() == 0 {
        false
    } else if a[0] != b[0] {
        a[0] < b[0]
    } else {
        lex_lt(a.drop_first(), b.drop_first())
    }
}

pub proof fn lemma_lex_irreflexive(a: Seq<char>)
    ensures
        !lex_lt(a, a),
    decreases a.len(),
{
    if a.len() > 0 {
        lemma_lex_irreflexive(a.drop_first());
    }
}

pub proof fn lemma_lex_transitive(a: Seq<char>, b: Seq<char>, c: Seq<char>)
    requires
        lex_lt(a, b),
        lex_lt(b, c),
    ensures
        lex_lt(a, c),
    decreases a.len(),
{
    if a.len() > 0 && b.len() > 0 && c.len() > 0 && a[0] == b[0] && b[0] == c[0] {
        lemma_lex_transitive(a.drop_first(), b.drop_first(), c.drop_first());
    }
}

pub proof fn lemma_lex_total(a: Seq<char>, b: Seq<char>)
    requires
        a != b,
    ensures
        lex_lt(a, b) || lex_lt(b, a),
    decreases a.len(),
{
    if a.len() > 0 && b.len() > 0 && a[0] == b[0] {
        if a.drop_first() == b.drop_first() {
            assert(a =~= seq![a[0]] + a.drop_first());
            assert(b =~= seq![b[0]] + b.drop_first());
        }
        lemma_lex_total(a.drop_first(), b.drop_first());
    } else if a.len() == 0 && b.len() == 0 {
        assert(a =~= b);
    }
}

/// Whether `a` comes before `b`.
pub fn lex_less(a: &str, b: &str) -> (r: bool)
    ensures
        r == lex_lt(a@, b@),
{
    let va = chars_of(a);
    let vb = chars_of(b);
    let mut i: usize = 0;
    assert(a@.skip(0) =~= a@);
    assert(b@.skip(0) =~= b@);
    while i < va.len() && i < vb.len() && va[i] == vb[i]
        invariant
            i <= va.len(),
            i <= vb.len(),
            va@ == a@,
            vb@ == b@,
            lex_lt(a@, b@) == lex_lt(a@.skip(i as int), b@.skip(i as int)),
        decreases va.len() - i,
    {
        assert(a@.skip(i as int).drop_first() =~= a@.skip(i + 1));
        assert(b@.skip(i as int).drop_first() =~= b@.skip(i + 1));
        i = i + 1;
    }
    if i == va.len() {
        i < vb.len()
    } else if i == vb.len() {
        false
    } else {
        va[i] < vb[i]
    }
}

/// The interfaces that the probes report, in probe order.
pub open spec fn routed_ifaces(probes: Seq<RouteProbe>) -> Seq<Seq<char>>
    decreases probes.len(),
{
    if probes.len() == 0 {
        Seq::empty()
    } else {
        let init = routed_ifaces(probes.drop_last());
        match probes.last().interface {
            Some(i) => init.push(i@),
            None => init,
        }
    }
}

/// The list is in strictly increasing order.
pub open spec fn strictly_sorted(l: Seq<Seq<char>>) -> bool {
    forall|i: int, j: int| 0 <= i < j < l.len() ==> lex_lt(#[trigger] l[i], #[trigger] l[j])
}

pub open spec fn family_name(f: IpFamily) -> Seq<char> {
    match f {
        IpFamily::V4 => "IPv4"@,
        IpFamily::V6 => "IPv6"@,
    }
}

/// One probe as a line: the family, the address and the interface.
pub open spec fn probe_line(p: RouteProbe) -> Seq<char> {
    family_name(p.family) + " "@ + p.destination@ + " → "@ + (match p.interface {
        Some(i) => i@,
        None => "?"@,
    })
}

/// The summary of a route test that the window shows.
pub struct RouteTestSummary {
    pub icon_name: &'static str,
    /// The interfaces that were used, sorted, once each.
    pub seen: String,
    pub expected: String,
    pub samples: String,
}

/// Every probe went through the expected interface (and one did at all).
pub open spec fn all_probes_match(report: RouteTestReport) -> bool {
    let routed = routed_ifaces(report.probes@);
    &&& report.expected_interface is Some
    &&& routed.len() > 0
    &&& forall|k: int| 0 <= k < routed.len() ==> routed[k] == report.expected_interface->0@
}

pub open spec fn summary_icon(report: RouteTestReport) -> Seq<char> {
    if all_probes_match(report) {
        "emblem-ok-symbolic"@
    } else if routed_ifaces(report.probes@).len() == 0 {
        "dialog-error-symbolic"@
    } else {
        "dialog-warning-symbolic"@
    }
}

/// The first four probes as lines, and a note of how many more there are.
pub open spec fn samples_text(l: Language, probes: Seq<RouteProbe>) -> Seq<char> {
    let shown = probes.take(if probes.len() < 4 { probes.len() as int } else { 4 });
    let lines = join(shown.map_values(|p: RouteProbe| probe_line(p)), "  ·  "@);
    let all = if probes.len() > 4 {
        lines + sample_more(l, (probes.len() - 4) as nat)
    } else {
        lines
    };
    if all.len() == 0 {
        "?"@
    } else {
        all
    }
}

/// Inserts `x` into a strictly sorted list, once.
fn insert_sorted(l: &mut Vec<String>, x: &String)
    requires
        strictly_sorted(texts_of(old(l)@)),
    ensures
        strictly_sorted(texts_of(final(l)@)),
        forall|y: Seq<char>|
            texts_of(final(l)@).contains(y) <==> (texts_of(old(l)@).contains(y) || y == x@),
{
    let ghost before = texts_of(l@);
    let mut i: usize = 0;
    while i < l.len() && lex_less(l[i].as_str(), x.as_str())
        invariant
            i <= l.len(),
            before == texts_of(l@),
            strictly_sorted(before),
            forall|k: int| 0 <= k < i ==> lex_lt(#[trigger] before[k], x@),
        decreases l.len() - i,
    {
        assert(before[i as int] == l@[i as int]@);
        i = i + 1;
    }
    if i < l.len() {
        assert(before[i as int] == l@[i as int]@);
        if str_eq(l[i].as_str(), x.as_str()) {
            assert(before.contains(x@));
            return;
        }
        proof {
            lemma_lex_total(x@, before[i as int]);
        }
    }
    // Every element from `i` on comes after `x`.
    proof {
        assert forall|k: int| i <= k < before.len() implies lex_lt(x@, #[trigger] before[k]) by {
            if k > i {
                assert(lex_lt(before[i as int], before[k]));
                lemma_lex_transitive(x@, before[i as int], before[k]);
            }
        }
    }
    l.insert(i, x.clone());
    let ghost after = texts_of(l@);
    assert(after =~= before.insert(i as int, x@));
    assert forall|a: int, b: int| 0 <= a < b < after.len() implies lex_lt(
        #[trigger] after[a],
        #[trigger] after[b],
    ) by {
        if b < i {
        } else if b == i {
        } else if a < i {
            assert(after[b] == before[b - 1]);
            assert(lex_lt(before[a], x@));
            lemma_lex_transitive(before[a], x@, before[b - 1]);
        } else if a == i {
            assert(after[b] == before[b - 1]);
        } else {
            assert(after[a] == before[a - 1]);
            assert(after[b] == before[b - 1]);
        }
    }
    assert forall|y: Seq<char>| after.contains(y) <==> (before.contains(y) || y == x@) by {
        if after.contains(y) {
            let k = choose|k: int| 0 <= k < after.len() && after[k] == y;
            if k < i {
                assert(before[k] == y);
            } else if k > i {
                assert(before[k - 1] == y);
            }
        }
        if before.contains(y) {
            let k = choose|k: int| 0 <= k < before.len() && before[k] == y;
            if k < i {
                assert(after[k] == y);
            } else {
                assert(after[k + 1] == y);
            }
        }
        if y == x@ {
            assert(after[i as int] == y);
        }
    }
}

/// How the used interfaces read: `?` for none, else the list.
pub open spec fn seen_text(l: Seq<Seq<char>>) -> Seq<char> {
    if l.len() == 0 {
        "?"@
    } else {
        join(l, ", "@)
    }
}

/// The interfaces that the probes report, in probe order, and the same
/// names sorted, once each.
fn routed_and_sorted(report: &RouteTestReport) -> (r: (Vec<String>, Vec<String>))
    ensures
        texts_of(r.0@) == routed_ifaces(report.probes@),
        strictly_sorted(texts_of(r.1@)),
        forall|y: Seq<char>| texts_of(r.1@).contains(y) <==> texts_of(r.0@).contains(y),
{
    let mut routed: Vec<String> = Vec::new();
    let mut seen: Vec<String> = Vec::new();
    let mut i: usize = 0;
    let ghost ps = report.probes@;
    assert(ps.take(0) =~= Seq::<RouteProbe>::empty());
    assert(texts_of(routed@) =~= Seq::<Seq<char>>::empty());
    assert(texts_of(seen@) =~= Seq::<Seq<char>>::empty());
    while i < report.probes.len()
        invariant
            i <= report.probes.len(),
            ps == report.probes@,
            texts_of(routed@) == routed_ifaces(ps.take(i as int)),
            strictly_sorted(texts_of(seen@)),
            forall|y: Seq<char>| texts_of(seen@).contains(y) <==> texts_of(routed@).contains(y),
        decreases report.probes.len() - i,
    {
        assert(ps.take(i + 1).drop_last() =~= ps.take(i as int));
        assert(ps.take(i + 1).last() == report.probes@[i as int]);
        match &report.probes[i].interface {
            Some(name) => {
                let ghost b = texts_of(routed@);
                routed.push(name.clone());
                assert(texts_of(routed@) =~= b.push(name@));
                insert_sorted(&mut seen, name);
                assert forall|y: Seq<char>| texts_of(routed@).contains(y) <==> (b.contains(y) || y
                    == name@) by {
                    if texts_of(routed@).contains(y) {
                        let k = choose|k: int|
                            0 <= k < texts_of(routed@).len() && texts_of(routed@)[k] == y;
                        if k < b.len() {
                            assert(b[k] == y);
                        }
                    }
                    if b.contains(y) {
                        let k = choose|k: int| 0 <= k < b.len() && b[k] == y;
                        assert(texts_of(routed@)[k] == y);
                    }
                    if y == name@ {
                        assert(texts_of(routed@)[b.len() as int] == y);
                    }
                }
            },
            None => {},
        }
        i = i + 1;
    }
    assert(ps.take(report.probes.len() as int) =~= ps);
    (routed, seen)
}

/// The icon for the outcome, given the interfaces that the probes used.
fn icon_for(report: &RouteTestReport, routed: &Vec<String>) -> (r: &'static str)
    requires
        texts_of(routed@) == routed_ifaces(report.probes@),
    ensures
        r@ == summary_icon(*report),
{
    let all_match = match &report.expected_interface {
        None => false,
        Some(e) => {
            if routed.len() == 0 {
                false
            } else {
                let mut ok = true;
                let mut k: usize = 0;
                while k < routed.len()
                    invariant
                        k <= routed.len(),
                        texts_of(routed@) == routed_ifaces(report.probes@),
                        report.expected_interface == Some(*e),
                        ok == forall|j: int| 0 <= j < k ==> texts_of(routed@)[j] == e@,
                    decreases routed.len() - k,
                {
                    assert(texts_of(routed@)[k as int] == routed@[k as int]@);
                    if !str_eq(routed[k].as_str(), e.as_str()) {
                        ok = false;
                    }
                    k = k + 1;
                }
                ok
            }
        },
    };
    assert(all_match == all_probes_match(*report));
    if all_match {
        "emblem-ok-symbolic"
    } else if routed.len() == 0 {
        "dialog-error-symbolic"
    } else {
        "dialog-warning-symbolic"
    }
}

/// One probe as a line.
fn probe_line_string(p: &RouteProbe) -> (r: String)
    ensures
        r@ == probe_line(*p),
{
    let mut r = match p.family {
        IpFamily::V4 => string_of("IPv4"),
        IpFamily::V6 => string_of("IPv6"),
    };
    append_str(&mut r, " ");
    append_str(&mut r, p.destination.as_str());
    append_str(&mut r, " → ");
    match &p.interface {
        Some(i) => append_str(&mut r, i.as_str()),
        None => append_str(&mut r, "?"),
    }
    r
}

/// The sample probes' line.
fn samples_line(language: Language, report: &RouteTestReport) -> (r: String)
    ensures
        r@ == samples_text(language, report.probes@),
{
    let n = report.probes.len();
    let shown_n = if n < 4 { n } else { 4 };
    let mut lines: Vec<String> = Vec::new();
    let mut i: usize = 0;
    let ghost shown = report.probes@.take(shown_n as int);
    while i < shown_n
        invariant
            i <= shown_n,
            shown_n <= report.probes.len(),
            shown == report.probes@.take(shown_n as int),
            lines.len() == i,
            texts_of(lines@) == shown.map_values(|p: RouteProbe| probe_line(p)).take(i as int),
        decreases shown_n - i,
    {
        let ghost b = lines@;
        lines.push(probe_line_string(&report.probes[i]));
        assert forall|k: int| 0 <= k < i + 1 implies texts_of(lines@)[k] == shown.map_values(
            |p: RouteProbe| probe_line(p),
        ).take(i + 1)[k] by {
            if k < i {
                assert(lines@[k] == b[k]);
                assert(texts_of(b)[k] == shown.map_values(|p: RouteProbe| probe_line(p)).take(
                    i as int,
                )[k]);
            }
        }
        assert(texts_of(lines@) =~= shown.map_values(|p: RouteProbe| probe_line(p)).take(i + 1));
        i = i + 1;
    }
    assert(shown.map_values(|p: RouteProbe| probe_line(p)).take(shown_n as int) =~= shown.map_values(
        |p: RouteProbe| probe_line(p),
    ));
    let mut all = join_strings(&lines, "  ·  ");
    if n > 4 {
        let more = language.route_sample_more(n - 4);
        append_str(&mut all, more.as_str());
    }
    if chars_of(all.as_str()).len() == 0 {
        return string_of("?");
    }
    all
}

/// What the window shows of a route test: an icon for the outcome, the
/// interfaces that were used (sorted, once each, or `?`), the expected
/// interface (or that none was chosen), and sample probes.
pub fn route_test_summary(report: &RouteTestReport, language: Language) -> (r: RouteTestSummary)
    ensures
        r.icon_name@ == summary_icon(*report),
        exists|l: Seq<Seq<char>>|
            strictly_sorted(l) && (forall|y: Seq<char>|
                l.contains(y) <==> routed_ifaces(report.probes@).contains(y)) && r.seen@
                == seen_text(l),
        r.expected@ == (match report.expected_interface {
            Some(e) => e@,
            None => texts_of_language(language).unselected,
        }),
        r.samples@ == samples_text(language, report.probes@),
{
    let texts = language.texts();
    let (routed, sorted) = routed_and_sorted(report);
    let seen = if sorted.len() == 0 {
        string_of("?")
    } else {
        join_strings(&sorted, ", ")
    };
    assert(seen@ == seen_text(texts_of(sorted@)));
    let icon_name = icon_for(report, &routed);
    let expected = match &report.expected_interface {
        Some(e) => e.clone(),
        None => string_of(texts.unselected),
    };
    let samples = samples_line(language, report);
    RouteTestSummary { icon_name, seen, expected, samples }
}

// ── Requests from the window ────────────────────────────────────────────────

/// The rule that the add button asks for: the entry's trimmed text read as
/// a target, through the interface chosen in the list (`selected`: its
/// position, if any); nothing when the text is empty, no listed interface
/// is chosen, or the text is no target.
pub open spec fn add_request_of(text: Seq<char>, selected: Option<usize>, names: Seq<Seq<char>>) -> Option<
    (TargetView, Seq<char>),
> {
    let t = trim(text, false);
    if t.len() == 0 {
        None
    } else {
        match selected {
            Some(k) => if k < names.len() {
                match user_input_target(t) {
                    Some(target) => Some((target, names[k as int])),
                    None => None,
                }
            } else {
                None
            },
            None => None,
        }
    }
}

pub fn add_rule_request(text: &str, selected: Option<usize>, names: &Vec<String>) -> (r: Option<
    UiToEngine,
>)
    ensures
        (match r {
            Some(UiToEngine::AddRule { target, interface }) => Some((target@, interface@)),
            _ => None,
        }) == add_request_of(text@, selected, texts_of(names@)),
        r matches Some(m) ==> m is AddRule,
{
    let t = trim_str(text);
    if chars_of(t.as_str()).len() == 0 {
        return None;
    }
    let k = match selected {
        Some(k) => k,
        None => return None,
    };
    if k >= names.len() {
        return None;
    }
    match RuleTarget::from_user_input(t.as_str()) {
        Some(target) => {
            assert(texts_of(names@)[k as int] == names@[k as int]@);
            Some(UiToEngine::AddRule { target, interface: names[k].clone() })
        },
        None => None,
    }
}

/// The route test that the test button asks for: the entry's trimmed text,
/// unless it is empty.
pub fn route_test_request(text: &str) -> (r: Option<UiToEngine>)
    ensures
        (match r {
            Some(UiToEngine::TestRoute { input }) => Some(input@),
            _ => None,
        }) == (if trim(text@, false).len() == 0 {
            None
        } else {
            Some(trim(text@, false))
        }),
        r matches Some(m) ==> m is TestRoute,
{
    let t = trim_str(text);
    if chars_of(t.as_str()).len() == 0 {
        None
    } else {
        Some(UiToEngine::TestRoute { input: t })
    }
}

/// The toast when turning routing on failed.
pub fn activation_failed_toast(texts: Texts, message: &str) -> (r: String)
    ensures
        r@ == texts@.activation_failed_toast + ": "@ + message@,
{
    let mut m = string_of(texts.activation_failed_toast);
    append_str(&mut m, ": ");
    append_str(&mut m, message);
    m
}

} // verus!
