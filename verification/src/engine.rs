//! The routing engine's own decisions: when to refresh domains, what to save,
//! how saved rules come back, and what the status line says.
use vstd::prelude::*;

use crate::config::{Language, PersistedRule, PersistedState};
use crate::executor::opt_view;
use crate::manager::{cidr_address, opt_text, rule_view_seq, RoutingStateManager};
use crate::models::{
    target_text, user_input_target, EngineToUi, IpFamily, RouteProbe, RouteTestReport, RoutingRule,
    RuleTarget, RuleView, TargetView,
};
use crate::resolver::addrs_view;
use crate::text::{
    append_str, chars_of, dec_text, find_char, lemma_first_index_unique, push_decimal, string_of,
    string_of_range,
};

verus! {

/// Domains are resolved again on the timer only while routing is off: while
/// it is on, the addresses in the kernel stay as they are.
pub open spec fn refresh_allowed(is_active: bool) -> bool {
    !is_active
}

pub fn should_refresh_domain_rules(is_active: bool) -> (r: bool)
    ensures
        r == refresh_allowed(is_active),
{
    !is_active
}

/// How a rule is saved: its target's text, whether it is a domain, and its
/// interface.
pub open spec fn saved_rule_of(r: RuleView) -> (Seq<char>, bool, Seq<char>) {
    (target_text(r.target), r.target is Domain, r.interface)
}

pub open spec fn saved_rules_of(rules: Seq<RuleView>) -> Seq<(Seq<char>, bool, Seq<char>)> {
    rules.map_values(|v: RuleView| saved_rule_of(v))
}

pub open spec fn persisted_rules_view(rules: Seq<PersistedRule>) -> Seq<(Seq<char>, bool, Seq<char>)> {
    rules.map_values(|p: PersistedRule| (p.target_str@, p.is_domain, p.interface@))
}

/// What is saved after a change: the language that was saved before, the
/// chosen interface and every rule.
pub fn save_config(manager: &RoutingStateManager, language: Language) -> (r: PersistedState)
    ensures
        r.language == language,
        opt_text(r.alt_interface) == manager@.alt_interface,
        persisted_rules_view(r.rules@) == saved_rules_of(manager@.rules),
{
    let rules = manager.rules();
    let ghost rv = manager@.rules;
    let mut saved: Vec<PersistedRule> = Vec::new();
    let mut i: usize = 0;
    while i < rules.len()
        invariant
            i <= rules.len(),
            saved.len() == i,
            rule_view_seq(rules@) == rv,
            persisted_rules_view(saved@) == saved_rules_of(rv).take(i as int),
        decreases rules.len() - i,
    {
        let r = &rules[i];
        assert(rv[i as int] == r@);
        let p = PersistedRule {
            target_str: string_of(r.target.display()),
            is_domain: r.target.is_domain(),
            interface: r.interface.clone(),
        };
        let ghost before = saved@;
        saved.push(p);
        assert(persisted_rules_view(saved@)[i as int] == saved_rule_of(rv[i as int]));
        assert forall|k: int| 0 <= k < i implies persisted_rules_view(saved@)[k] == saved_rules_of(
            rv,
        ).take(i as int)[k] by {
            assert(saved@[k] == before[k]);
        }
        assert(persisted_rules_view(saved@) =~= saved_rules_of(rv).take(i + 1));
        i = i + 1;
    }
    assert(saved_rules_of(rv).take(rules.len() as int) =~= saved_rules_of(rv));
    let alt = match manager.alt_interface() {
        Some(s) => Some(string_of(s)),
        None => None,
    };
    PersistedState { language, alt_interface: alt, rules: saved }
}

/// How a saved rule comes back: its text read again as user input, or,
/// when that fails, taken as it was saved.
pub open spec fn restored_target(text: Seq<char>, is_domain: bool) -> TargetView {
    match user_input_target(text) {
        Some(t) => t,
        None => if is_domain {
            TargetView::Domain(text)
        } else {
            TargetView::Ip(text)
        },
    }
}

pub fn saved_rule_target(saved: &PersistedRule) -> (r: RuleTarget)
    ensures
        r@ == restored_target(saved.target_str@, saved.is_domain),
{
    match RuleTarget::from_user_input(saved.target_str.as_str()) {
        Some(t) => t,
        None => if saved.is_domain {
            RuleTarget::Domain(saved.target_str.clone())
        } else {
            RuleTarget::Ip(saved.target_str.clone())
        },
    }
}

// ── Status lines ────────────────────────────────────────────────────────────

pub open spec fn activated_status(count: nat) -> Seq<char> {
    "Aktif — "@ + dec_text(count) + " kural yönlendiriliyor"@
}

pub open spec fn active_count_status(count: nat) -> Seq<char> {
    "Aktif — "@ + dec_text(count) + " kural"@
}

/// The status once routing was turned on.
pub fn activated_status_line(count: usize) -> (r: String)
    ensures
        r@ == activated_status(count as nat),
{
    let mut r = string_of("Aktif — ");
    push_decimal(&mut r, count as u64);
    append_str(&mut r, " kural yönlendiriliyor");
    r
}

/// The status after a rule was added while routing is on.
pub fn active_count_status_line(count: usize) -> (r: String)
    ensures
        r@ == active_count_status(count as nat),
{
    let mut r = string_of("Aktif — ");
    push_decimal(&mut r, count as u64);
    append_str(&mut r, " kural");
    r
}

/// The status once routing was turned off.
pub fn inactive_status_line() -> (r: String)
    ensures
        r@ == "Devre dışı"@,
{
    string_of("Devre dışı")
}

// ── Route tests ─────────────────────────────────────────────────────────────

/// What a route test probes: one address, or the addresses of a domain.
#[derive(Debug)]
pub enum RouteTestTarget {
    Address(String),
    Domain(String),
}

pub open spec fn route_test_target_of(input: Seq<char>) -> Result<TargetView, Seq<char>> {
    match user_input_target(input) {
        None => Err("Geçerli bir adres girin"@),
        Some(TargetView::Ip(ip)) => Ok(TargetView::Ip(cidr_address(ip))),
        Some(TargetView::Domain(d)) => Ok(TargetView::Domain(d)),
    }
}

/// What to probe for a route test of the user's input: the address of an
/// IP or range, or the domain to resolve.
pub fn route_test_target(input: &str) -> (r: Result<RouteTestTarget, String>)
    ensures
        (match r {
            Ok(RouteTestTarget::Address(a)) => Ok(TargetView::Ip(a@)),
            Ok(RouteTestTarget::Domain(d)) => Ok(TargetView::Domain(d@)),
            Err(e) => Err(e@),
        }) == route_test_target_of(input@),
{
    match RuleTarget::from_user_input(input) {
        None => Err(string_of("Geçerli bir adres girin")),
        Some(RuleTarget::Domain(d)) => Ok(RouteTestTarget::Domain(d)),
        Some(RuleTarget::Ip(ip)) => {
            let v = chars_of(ip.as_str());
            let n = v.len();
            assert(v@.subrange(0, n as int) =~= ip@);
            let end = match find_char(&v, 0, n, '/') {
                Some(k) => {
                    proof {
                        lemma_first_index_unique(ip@, '/', k as int);
                        assert(ip@.take(k as int) =~= v@.subrange(0, k as int));
                    }
                    k
                },
                None => n,
            };
            Ok(RouteTestTarget::Address(string_of_range(&v, 0, end, false)))
        },
    }
}

/// How many addresses a route test probes at most.
pub const ROUTE_TEST_LIMIT: usize = 8;

/// The addresses that a route test probes: the first eight.
pub fn route_test_addresses(addrs: Vec<(String, IpFamily)>) -> (r: Vec<(String, IpFamily)>)
    ensures
        addrs_view(r@) == addrs_view(addrs@).take(
            if addrs@.len() < 8 {
                addrs@.len() as int
            } else {
                8
            },
        ),
{
    let ghost all = addrs@;
    let mut addrs = addrs;
    if addrs.len() > ROUTE_TEST_LIMIT {
        addrs.truncate(ROUTE_TEST_LIMIT);
    }
    assert(addrs@ =~= all.take(if all.len() < 8 { all.len() as int } else { 8 }));
    assert(addrs_view(addrs@) =~= addrs_view(all).take(if all.len() < 8 { all.len() as int } else { 8 }));
    addrs
}

/// The report of a route test: the probes, against the interface that the
/// user chose.
pub fn route_test_report(manager: &RoutingStateManager, probes: Vec<RouteProbe>) -> (r:
    RouteTestReport)
    ensures
        opt_view(r.expected_interface) == manager@.alt_interface,
        r.probes@ == probes@,
{
    let expected = match manager.alt_interface() {
        Some(s) => Some(string_of(s)),
        None => None,
    };
    RouteTestReport { expected_interface: expected, probes }
}

/// What failed in the engine, for the message that the window shows.
#[derive(Debug)]
pub enum EngineFailure {
    /// The clean-up at start-up.
    StartupCleanup,
    /// A saved rule, with its text, could not be added back.
    LoadRule(String),
    /// A new rule, with its target's text, could not be added.
    AddRule(String),
    RemoveRule,
    Deactivate,
    Reset,
    RouteTest,
}

pub open spec fn failure_text(kind: EngineFailure, detail: Seq<char>) -> Seq<char> {
    match kind {
        EngineFailure::StartupCleanup => "Başlangıç temizliği: "@ + detail,
        EngineFailure::LoadRule(t) => "'"@ + t@ + "' yüklenemedi: "@ + detail,
        EngineFailure::AddRule(t) => "'"@ + t@ + "' eklenemedi: "@ + detail,
        EngineFailure::RemoveRule => "Silinemedi: "@ + detail,
        EngineFailure::Deactivate => "Devre dışı bırakma hatası: "@ + detail,
        EngineFailure::Reset => "Sıfırlama hatası: "@ + detail,
        EngineFailure::RouteTest => "Test başarısız: "@ + detail,
    }
}

/// The message of a failure, with the error's own text.
pub fn failure_message(kind: &EngineFailure, detail: &str) -> (r: String)
    ensures
        r@ == failure_text(*kind, detail@),
{
    let mut m = match kind {
        EngineFailure::StartupCleanup => string_of("Başlangıç temizliği: "),
        EngineFailure::LoadRule(t) => {
            let mut m = string_of("'");
            append_str(&mut m, t.as_str());
            append_str(&mut m, "' yüklenemedi: ");
            m
        },
        EngineFailure::AddRule(t) => {
            let mut m = string_of("'");
            append_str(&mut m, t.as_str());
            append_str(&mut m, "' eklenemedi: ");
            m
        },
        EngineFailure::RemoveRule => string_of("Silinemedi: "),
        EngineFailure::Deactivate => string_of("Devre dışı bırakma hatası: "),
        EngineFailure::Reset => string_of("Sıfırlama hatası: "),
        EngineFailure::RouteTest => string_of("Test başarısız: "),
    };
    append_str(&mut m, detail);
    m
}

// ── What the window is told ─────────────────────────────────────────────────

/// After turning routing on was asked for: the status line with the number
/// of rules, or the failure, on which the window turns its switch back off.
pub fn activation_replies(outcome: Result<(), String>, count: usize) -> (r: Vec<EngineToUi>)
    ensures
        r.len() == 1,
        match outcome {
            Ok(_) => r[0] matches EngineToUi::StatusUpdate(s) && s@ == activated_status(count as nat),
            Err(e) => r[0] matches EngineToUi::ActivationFailed(m) && m@ == e@,
        },
{
    let mut r: Vec<EngineToUi> = Vec::new();
    match outcome {
        Ok(_) => r.push(EngineToUi::StatusUpdate(activated_status_line(count))),
        Err(e) => r.push(EngineToUi::ActivationFailed(e)),
    }
    r
}

/// After turning routing off was asked for: that it is off and the status
/// line, or the error.
pub fn deactivation_replies(outcome: Result<(), String>) -> (r: Vec<EngineToUi>)
    ensures
        match outcome {
            Ok(_) => r.len() == 2 && r[0] is Deactivated && (r[1] matches EngineToUi::StatusUpdate(
                s,
            ) && s@ == "Devre dışı"@),
            Err(e) => r.len() == 1 && (r[0] matches EngineToUi::Error(m) && m@ == failure_text(
                EngineFailure::Deactivate,
                e@,
            )),
        },
{
    let mut r: Vec<EngineToUi> = Vec::new();
    match outcome {
        Ok(_) => {
            r.push(EngineToUi::Deactivated);
            r.push(EngineToUi::StatusUpdate(inactive_status_line()));
        },
        Err(e) => r.push(
            EngineToUi::Error(failure_message(&EngineFailure::Deactivate, e.as_str())),
        ),
    }
    r
}

/// After a rule was asked for: the new rule and, while routing is on, the
/// status line with the number of rules (and the settings are saved); or
/// the error, naming the target (and nothing is saved).
pub fn add_rule_replies(
    display: &str,
    outcome: Result<RoutingRule, String>,
    is_active: bool,
    count: usize,
) -> (r: (Vec<EngineToUi>, bool))
    ensures
        match outcome {
            Ok(rule) => {
                &&& r.1
                &&& r.0.len() == (if is_active { 2int } else { 1int })
                &&& r.0[0] matches EngineToUi::RuleAdded(x) && x == rule
                &&& is_active ==> (r.0[1] matches EngineToUi::StatusUpdate(s) && s@
                    == active_count_status(count as nat))
            },
            Err(e) => !r.1 && r.0.len() == 1 && (r.0[0] matches EngineToUi::Error(m) && m@
                == "'"@ + display@ + "' eklenemedi: "@ + e@),
        },
{
    let mut r: Vec<EngineToUi> = Vec::new();
    match outcome {
        Ok(rule) => {
            r.push(EngineToUi::RuleAdded(rule));
            if is_active {
                r.push(EngineToUi::StatusUpdate(active_count_status_line(count)));
            }
            (r, true)
        },
        Err(e) => {
            let kind = EngineFailure::AddRule(string_of(display));
            r.push(EngineToUi::Error(failure_message(&kind, e.as_str())));
            (r, false)
        },
    }
}

/// After a saved rule was added back at start-up: the rule, or the error
/// naming its saved text.
pub fn load_rule_replies(target_str: &str, outcome: Result<RoutingRule, String>) -> (r: Vec<
    EngineToUi,
>)
    ensures
        r.len() == 1,
        match outcome {
            Ok(rule) => r[0] matches EngineToUi::RuleAdded(x) && x == rule,
            Err(e) => r[0] matches EngineToUi::Error(m) && m@ == "'"@ + target_str@
                + "' yüklenemedi: "@ + e@,
        },
{
    let mut r: Vec<EngineToUi> = Vec::new();
    match outcome {
        Ok(rule) => r.push(EngineToUi::RuleAdded(rule)),
        Err(e) => {
            let kind = EngineFailure::LoadRule(string_of(target_str));
            r.push(EngineToUi::Error(failure_message(&kind, e.as_str())));
        },
    }
    r
}

/// After removing a rule was asked for: that it is gone (and the settings
/// are saved), or the error.
pub fn remove_rule_replies(id: u64, outcome: Result<(), String>) -> (r: (Vec<EngineToUi>, bool))
    ensures
        r.0.len() == 1,
        match outcome {
            Ok(_) => r.1 && (r.0[0] matches EngineToUi::RuleRemoved(x) && x == id),
            Err(e) => !r.1 && (r.0[0] matches EngineToUi::Error(m) && m@ == failure_text(
                EngineFailure::RemoveRule,
                e@,
            )),
        },
{
    let mut r: Vec<EngineToUi> = Vec::new();
    match outcome {
        Ok(_) => {
            r.push(EngineToUi::RuleRemoved(id));
            (r, true)
        },
        Err(e) => {
            r.push(EngineToUi::Error(failure_message(&EngineFailure::RemoveRule, e.as_str())));
            (r, false)
        },
    }
}

/// After a full reset was asked for: that it is complete (and the settings
/// are saved), or the error.
pub fn reset_replies(outcome: Result<(), String>) -> (r: (Vec<EngineToUi>, bool))
    ensures
        r.0.len() == 1,
        match outcome {
            Ok(_) => r.1 && r.0[0] is ResetComplete,
            Err(e) => !r.1 && (r.0[0] matches EngineToUi::Error(m) && m@ == failure_text(
                EngineFailure::Reset,
                e@,
            )),
        },
{
    let mut r: Vec<EngineToUi> = Vec::new();
    match outcome {
        Ok(_) => {
            r.push(EngineToUi::ResetComplete);
            (r, true)
        },
        Err(e) => {
            r.push(EngineToUi::Error(failure_message(&EngineFailure::Reset, e.as_str())));
            (r, false)
        },
    }
}

/// After a route test: its report, or the error.
pub fn route_test_replies(outcome: Result<RouteTestReport, String>) -> (r: Vec<EngineToUi>)
    ensures
        r.len() == 1,
        match outcome {
            Ok(report) => r[0] matches EngineToUi::RouteTestComplete(x) && x == report,
            Err(e) => r[0] matches EngineToUi::Error(m) && m@ == failure_text(
                EngineFailure::RouteTest,
                e@,
            ),
        },
{
    let mut r: Vec<EngineToUi> = Vec::new();
    match outcome {
        Ok(report) => r.push(EngineToUi::RouteTestComplete(report)),
        Err(e) => r.push(
            EngineToUi::Error(failure_message(&EngineFailure::RouteTest, e.as_str())),
        ),
    }
    r
}

/// After the start-up clean-up ran: nothing when it went well; else the
/// error.
pub fn startup_cleanup_replies(outcome: Result<(), String>) -> (r: Vec<EngineToUi>)
    ensures
        match outcome {
            Ok(_) => r.len() == 0,
            Err(e) => r.len() == 1 && (r[0] matches EngineToUi::Error(m) && m@ == failure_text(
                EngineFailure::StartupCleanup,
                e@,
            )),
        },
{
    let mut r: Vec<EngineToUi> = Vec::new();
    match outcome {
        Ok(_) => {},
        Err(e) => r.push(
            EngineToUi::Error(failure_message(&EngineFailure::StartupCleanup, e.as_str())),
        ),
    }
    r
}

} // verus!
