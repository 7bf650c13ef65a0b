//! Properties of the library as a whole: what holds across calls and
//! between its parts.
use vstd::prelude::*;

use crate::config::{language_at, language_index, Language};
use crate::dns_router::{mark_args_of, teardown_steps_of, with_domain};
use crate::engine::{activated_status, active_count_status, restored_target};
use crate::executor::{holds_owned_rule, IpJsonView, PRIORITY_BASE, PRIORITY_MAX, ROUTELANE_TABLE};
use crate::helper::{
    cidr_check, iface_char_ok, ip_or_iface_check, plan, priority_check, table_check, PRIO_MAX,
    PRIO_MIN, TABLE_MAX, TABLE_MIN,
};
use crate::i18n::{english_texts, status_in};
use crate::ipaddr::{
    parse_u8_text, u8_digits, first_double_colon, groups_ok, has_double_colon, ip_text_family, is_dec_octet,
    is_double_colon_at, is_first_double_colon, is_hex_group, is_ipv4_text, is_ipv6_text,
    lemma_split_without_sep,
};
use crate::manager::{
    activation_plan, add_rule_plan, add_step, cidr_address, cidr_family_of, has_rule, ip_rule_plan,
    manager_wf, new_ips, refresh_plan, required_families_of, reset_kernel_plan, route_plan,
    rule_index, rules_rule_plan, FamilySet, ManagerView,
};
use crate::models::{
    after_userinfo,  authority_of, domain_of, has_scheme_sep, host_of, is_authority_cut,
    is_cidr_text, strip_scheme, user_input_target, IpFamily, OpView, RuleView, TargetView,
};
use crate::resolver::host_cidr;
use crate::text::{
    ascii_lower, dec_text, digit_char, first_index, has_char, is_digit, is_first_index, is_hex_digit,
    is_unicode_whitespace,
    lemma_encode_empty, lemma_first_index_exists, lemma_first_index_unique, lemma_split_nonempty, lower_seq, pieces, split, trim, trim_end,
    trim_start, trimmed_char, ws_tokens,
};

verus! {

// ── Configuration ───────────────────────────────────────────────────────────

/// A language's position in the list gives the language back.
pub proof fn law_language_index_round_trip(l: Language)
    ensures
        language_at(language_index(l)) == l,
{
}

// ── The routing state ───────────────────────────────────────────────────────

/// Rule ids are unique, and so are rule priorities.
pub proof fn law_ids_and_priorities_unique(m: ManagerView)
    requires
        manager_wf(m),
    ensures
        forall|i: int, j: int|
            0 <= i < m.rules.len() && 0 <= j < m.rules.len() && i != j ==> m.rules[i].id
                != m.rules[j].id && m.rules[i].priority != m.rules[j].priority,
{
    assert forall|i: int, j: int|
        0 <= i < m.rules.len() && 0 <= j < m.rules.len() && i != j implies m.rules[i].id
        != m.rules[j].id && m.rules[i].priority != m.rules[j].priority by {
        if i < j {
            assert(m.rules[i].id < m.rules[j].id);
        } else {
            assert(m.rules[j].id < m.rules[i].id);
        }
    }
}

/// Every rule's priority lies in the owned range `[10000, 10999]`.
pub proof fn law_priorities_in_owned_range(m: ManagerView)
    requires
        manager_wf(m),
    ensures
        forall|i: int|
            0 <= i < m.rules.len() ==> PRIORITY_BASE <= #[trigger] m.rules[i].priority
                <= PRIORITY_MAX,
{
    assert forall|i: int| 0 <= i < m.rules.len() implies PRIORITY_BASE
        <= #[trigger] m.rules[i].priority <= PRIORITY_MAX by {
        assert(m.rules[i].id < m.next_id);
    }
}

/// An add that fails, at whatever step before its commit, uses up no id
/// and no priority: the manager stays as it was, and the next add that
/// succeeds makes the rule that the failed one would have made.
pub proof fn law_failed_add_uses_nothing(
    m: ManagerView,
    target: TargetView,
    ips: Seq<Seq<char>>,
    interface: Seq<char>,
    error: Seq<char>,
    next_target: TargetView,
    next_ips: Seq<Seq<char>>,
    next_interface: Seq<char>,
)
    requires
        manager_wf(m),
        m.next_priority <= PRIORITY_MAX,
    ensures
        add_step(m, target, ips, interface, Err(error)) == (m, Err::<RuleView, Seq<char>>(error)),
        ({
            let after = add_step(m, target, ips, interface, Err(error)).0;
            let r = add_step(after, next_target, next_ips, next_interface, Ok(())).1;
            r matches Ok(rule) && rule.id == m.next_id && rule.priority == m.next_priority
        }),
{
}

/// Removing the rule that was just added gives the rule list back: the new
/// rule takes the next id, which no earlier rule has.
pub proof fn law_remove_undoes_add(m: ManagerView, r: RuleView)
    requires
        manager_wf(m),
        r.id == m.next_id,
    ensures
        has_rule(m.rules.push(r), r.id),
        rule_index(m.rules.push(r), r.id) == m.rules.len(),
        m.rules.push(r).remove(m.rules.len() as int) == m.rules,
{
    let rules = m.rules.push(r);
    let n = m.rules.len() as int;
    assert(rules[n].id == r.id);
    assert(has_rule(rules, r.id));
    let k = rule_index(rules, r.id);
    if k < n {
        assert(rules[k] == m.rules[k]);
        assert(m.rules[k].id < m.next_id);
    }
    assert(rules.remove(n) =~= m.rules);
}

/// While routing is off, adding or refreshing a rule plans nothing for the
/// kernel: rules are kept in the application only.
pub proof fn law_off_plans_nothing(
    m: ManagerView,
    ips: Seq<Seq<char>>,
    interface: Seq<char>,
    id: u64,
    fresh: Seq<Seq<char>>,
    gw4: Option<Seq<char>>,
    gw6: Option<Seq<char>>,
)
    requires
        !m.is_active,
        m.next_priority <= PRIORITY_MAX,
    ensures
        add_rule_plan(m, ips, interface, gw4, gw6) == Ok::<Seq<OpView>, Seq<char>>(Seq::empty()),
        refresh_plan(m, id, fresh, gw4, gw6) matches Ok((_, ops)) ==> ops.len() == 0,
{
}

/// Every `ip rule` planned for a list of addresses goes to the
/// application's table at the given priority.
pub proof fn law_ip_rules_in_owned_table(ips: Seq<Seq<char>>, priority: u32, routed: FamilySet)
    ensures
        ip_rule_plan(ips, priority, routed) matches Ok(ops) ==> forall|k: int|
            0 <= k < ops.len() ==> (#[trigger] ops[k] matches OpView::AddRule {
                table,
                priority: p,
                ..
            } && table == ROUTELANE_TABLE && p == priority),
    decreases ips.len(),
{
    if ips.len() > 0 {
        law_ip_rules_in_owned_table(ips.drop_last(), priority, routed);
    }
}

/// What adding a rule plans stays in the application's table: default
/// routes of that table, and `ip rule`s into it at the next priority.
pub proof fn law_add_rule_plan_in_owned_table(
    m: ManagerView,
    ips: Seq<Seq<char>>,
    interface: Seq<char>,
    gw4: Option<Seq<char>>,
    gw6: Option<Seq<char>>,
)
    ensures
        add_rule_plan(m, ips, interface, gw4, gw6) matches Ok(ops) ==> forall|k: int|
            0 <= k < ops.len() ==> (#[trigger] ops[k] matches OpView::AddRoute { table, .. }
                && table == ROUTELANE_TABLE) || (ops[k] matches OpView::AddRule {
                table,
                priority,
                ..
            } && table == ROUTELANE_TABLE && priority == m.next_priority),
{
    match add_rule_plan(m, ips, interface, gw4, gw6) {
        Ok(all) => {
            if m.is_active {
                let fams = crate::manager::ips_families(ips)->Ok_0;
                let (ops, routed) = route_plan(interface, fams, gw4, gw6)->Ok_0;
                let more = ip_rule_plan(ips, m.next_priority, routed)->Ok_0;
                law_ip_rules_in_owned_table(ips, m.next_priority, routed);
                assert(all == ops + more);
                assert forall|k: int| 0 <= k < all.len() implies (#[trigger] all[k] matches OpView::AddRoute {
                    table,
                    ..
                } && table == ROUTELANE_TABLE) || (all[k] matches OpView::AddRule {
                    table,
                    priority,
                    ..
                } && table == ROUTELANE_TABLE && priority == m.next_priority) by {
                    if k >= ops.len() {
                        assert(all[k] == more[k - ops.len()]);
                    }
                }
            }
        },
        Err(_) => {},
    }
}

/// A refresh adds exactly the fresh addresses that the rule lacks.
pub proof fn law_refresh_adds_only_new(existing: Seq<Seq<char>>, fresh: Seq<Seq<char>>)
    ensures
        forall|x: Seq<char>|
            new_ips(existing, fresh).contains(x) <==> (fresh.contains(x) && !existing.contains(x)),
    decreases fresh.len(),
{
    if fresh.len() > 0 {
        law_refresh_adds_only_new(existing, fresh.drop_last());
        let init = new_ips(existing, fresh.drop_last());
        assert forall|x: Seq<char>|
            new_ips(existing, fresh).contains(x) <==> (fresh.contains(x) && !existing.contains(
                x,
            )) by {
            if fresh.contains(x) {
                let k = choose|k: int| 0 <= k < fresh.len() && fresh[k] == x;
                if k < fresh.len() - 1 {
                    assert(fresh.drop_last()[k] == x);
                }
            }
            if fresh.drop_last().contains(x) {
                let k = choose|k: int| 0 <= k < fresh.drop_last().len() && fresh.drop_last()[k] == x;
                assert(fresh[k] == x);
            }
            if !existing.contains(fresh.last()) {
                assert(new_ips(existing, fresh) == init.push(fresh.last()));
                if init.push(fresh.last()).contains(x) {
                    let k = choose|k: int| 0 <= k < init.len() + 1 && init.push(fresh.last())[k] == x;
                    if k < init.len() {
                        assert(init[k] == x);
                    }
                }
                if init.contains(x) {
                    let k = choose|k: int| 0 <= k < init.len() && init[k] == x;
                    assert(init.push(fresh.last())[k] == x);
                }
                if x == fresh.last() {
                    assert(init.push(fresh.last())[init.len() as int] == x);
                }
            }
        }
    }
}

// ── The helper accepts what the manager plans ───────────────────────────────

/// The kernel clean-up that the manager plans passes every check of the
/// helper.
pub proof fn law_reset_plan_accepted_by_helper()
    ensures
        forall|k: int| 0 <= k < reset_kernel_plan().len() ==> plan(#[trigger] reset_kernel_plan()[k]) is Ok,
{
    assert(table_check(ROUTELANE_TABLE) is Ok);
}

/// The helper touches only its tables and priority ranges: an operation
/// that it accepts names a table in `[100, 199]`, rule and fwmark-rule
/// priorities in `[10000, 10999]`, and a destination of the declared family.
pub proof fn law_helper_bounds(op: OpView)
    requires
        plan(op) is Ok,
    ensures
        op matches OpView::AddRoute { table, .. } ==> TABLE_MIN <= table <= TABLE_MAX,
        op matches OpView::FlushTable { table, .. } ==> TABLE_MIN <= table <= TABLE_MAX,
        op matches OpView::AddFwmarkRule { table, priority, .. } ==> TABLE_MIN <= table <= TABLE_MAX
            && PRIO_MIN <= priority <= PRIO_MAX,
        op matches OpView::AddRule { table, priority, destination, family } ==> TABLE_MIN <= table
            <= TABLE_MAX && PRIO_MIN <= priority <= PRIO_MAX && ip_text_family(
            cidr_address(destination),
        ) == Some(family),
        op matches OpView::FlushRulesInRange { min_priority, max_priority, .. } ==> PRIO_MIN
            <= min_priority && max_priority <= PRIO_MAX,
{
}

/// The owned priority range of the manager is the range that the helper
/// accepts.
pub proof fn law_owned_range_is_helper_range()
    ensures
        PRIORITY_BASE == PRIO_MIN,
        PRIORITY_MAX == PRIO_MAX,
        TABLE_MIN <= ROUTELANE_TABLE <= TABLE_MAX,
        forall|p: u32| PRIORITY_BASE <= p <= PRIORITY_MAX ==> priority_check(p) is Ok,
{
}

// ── Status lines ────────────────────────────────────────────────────────────

proof fn lemma_dec_text_digits(n: nat)
    ensures
        dec_text(n).len() > 0,
        forall|i: int| 0 <= i < dec_text(n).len() ==> is_digit(#[trigger] dec_text(n)[i]),
    decreases n,
{
    if n >= 10 {
        lemma_dec_text_digits(n / 10);
        assert forall|i: int| 0 <= i < dec_text(n).len() implies is_digit(
            #[trigger] dec_text(n)[i],
        ) by {
            if i < dec_text(n / 10).len() {
                assert(dec_text(n)[i] == dec_text(n / 10)[i]);
            } else {
                assert(dec_text(n)[i] == digit_char(n % 10));
            }
        }
    } else {
        assert(dec_text(n)[0] == digit_char(n));
    }
}

proof fn lemma_ws_tokens_ends_in_word(s: Seq<char>)
    requires
        s.len() > 0,
        !is_unicode_whitespace(s.last()),
    ensures
        ws_tokens(s).len() > 0,
    decreases s.len(),
{
    if s.len() >= 2 && !is_unicode_whitespace(s[s.len() - 2]) {
        assert(s.drop_last().last() == s[s.len() - 2]);
        lemma_ws_tokens_ends_in_word(s.drop_last());
    }
}

proof fn lemma_ws_tokens_word(d: Seq<char>)
    requires
        d.len() > 0,
        forall|i: int| 0 <= i < d.len() ==> !is_unicode_whitespace(#[trigger] d[i]),
    ensures
        ws_tokens(d) == seq![d],
    decreases d.len(),
{
    if d.len() == 1 {
        assert(d.drop_last() =~= Seq::<char>::empty());
        assert(ws_tokens(d.drop_last()) =~= Seq::<Seq<char>>::empty());
        assert(!is_unicode_whitespace(d[0]));
        assert(d.last() == d[0]);
        assert(seq![d.last()] =~= d);
        assert(ws_tokens(d) == Seq::<Seq<char>>::empty().push(seq![d.last()]));
        assert(Seq::<Seq<char>>::empty().push(seq![d.last()]) =~= seq![d]);
    } else {
        let init = d.drop_last();
        assert forall|i: int| 0 <= i < init.len() implies !is_unicode_whitespace(
            #[trigger] init[i],
        ) by {
            assert(init[i] == d[i]);
        }
        lemma_ws_tokens_word(init);
        assert(!is_unicode_whitespace(d[d.len() - 2]));
        assert(!is_unicode_whitespace(d.last()));
        assert(init.push(d.last()) =~= d);
    }
}

proof fn lemma_ws_tokens_after_word(d: Seq<char>, b: Seq<char>)
    requires
        d.len() > 0,
        forall|i: int| 0 <= i < d.len() ==> !is_unicode_whitespace(#[trigger] d[i]),
        b.len() > 0,
        is_unicode_whitespace(b[0]),
    ensures
        ws_tokens(d + b) == seq![d] + ws_tokens(b),
    decreases b.len(),
{
    let s = d + b;
    if b.len() == 1 {
        assert(s.drop_last() =~= d);
        assert(s.last() == b[0]);
        lemma_ws_tokens_word(d);
        assert(b.drop_last() =~= Seq::<char>::empty());
        assert(ws_tokens(b.drop_last()) =~= Seq::<Seq<char>>::empty());
        assert(b.last() == b[0]);
        assert(ws_tokens(b) =~= Seq::<Seq<char>>::empty());
        assert(seq![d] + ws_tokens(b) =~= seq![d]);
    } else {
        let bi = b.drop_last();
        assert(bi[0] == b[0]);
        lemma_ws_tokens_after_word(d, bi);
        assert(s.drop_last() =~= d + bi);
        assert(s.last() == b.last());
        assert(s[s.len() - 2] == b[b.len() - 2]);
        assert(bi.last() == b[b.len() - 2]);
        let u = ws_tokens(bi);
        if !is_unicode_whitespace(b.last()) && !is_unicode_whitespace(b[b.len() - 2]) {
            lemma_ws_tokens_ends_in_word(bi);
            assert((seq![d] + u).update((seq![d] + u).len() - 1, (seq![d] + u).last().push(b.last()))
                =~= seq![d] + u.update(u.len() - 1, u.last().push(b.last())));
        } else if !is_unicode_whitespace(b.last()) {
            assert((seq![d] + u).push(seq![b.last()]) =~= seq![d] + u.push(seq![b.last()]));
        }
    }
}

/// The status lines of the engine read in English as the window promises:
/// `Active - <count> rule(s)`, and `Routing disabled`.
pub proof fn law_status_lines_translate(count: nat)
    ensures
        status_in(Language::En, activated_status(count)) == "Active - "@ + dec_text(count)
            + " rule(s)"@,
        status_in(Language::En, active_count_status(count)) == "Active - "@ + dec_text(count)
            + " rule(s)"@,
        status_in(Language::En, "Devre dışı"@) == english_texts().inactive,
{
    let prefix = "Aktif — "@;
    lemma_dec_text_digits(count);
    let d = dec_text(count);
    assert forall|i: int| 0 <= i < d.len() implies !is_unicode_whitespace(#[trigger] d[i]) by {
        assert(is_digit(d[i]));
    }
    reveal_strlit("Aktif — ");
    reveal_strlit("Devre dışı");
    reveal_strlit(" kural yönlendiriliyor");
    reveal_strlit(" kural");
    let s1 = activated_status(count);
    let b1 = " kural yönlendiriliyor"@;
    assert(s1 == prefix + (d + b1));
    assert(prefix.is_prefix_of(s1));
    assert(s1.skip(prefix.len() as int) =~= d + b1);
    lemma_ws_tokens_after_word(d, b1);
    assert(s1[0] != "Devre dışı"@[0]);
    let s2 = active_count_status(count);
    let b2 = " kural"@;
    assert(s2 == prefix + (d + b2));
    assert(prefix.is_prefix_of(s2));
    assert(s2.skip(prefix.len() as int) =~= d + b2);
    lemma_ws_tokens_after_word(d, b2);
    assert(s2[0] != "Devre dışı"@[0]);
}

// ── Saved rules come back ───────────────────────────────────────────────────

proof fn lemma_trim_start_shape(s: Seq<char>, dots: bool)
    ensures
        trim_start(s, dots).len() > 0 ==> !crate::text::trimmed_char(dots, trim_start(s, dots)[0]),
        trim_start(trim_start(s, dots), dots) == trim_start(s, dots),
    decreases s.len(),
{
    if s.len() > 0 && crate::text::trimmed_char(dots, s[0]) {
        lemma_trim_start_shape(s.drop_first(), dots);
    }
}

proof fn lemma_trim_end_shape(s: Seq<char>, dots: bool)
    ensures
        trim_end(s, dots).len() <= s.len(),
        trim_end(s, dots) == s.take(trim_end(s, dots).len() as int),
        trim_end(s, dots).len() > 0 ==> !crate::text::trimmed_char(dots, trim_end(s, dots).last()),
        trim_end(trim_end(s, dots), dots) == trim_end(s, dots),
    decreases s.len(),
{
    if s.len() > 0 && crate::text::trimmed_char(dots, s.last()) {
        lemma_trim_end_shape(s.drop_last(), dots);
        let t = trim_end(s.drop_last(), dots);
        assert(s.drop_last().take(t.len() as int) =~= s.take(t.len() as int));
    } else {
        assert(s.take(s.len() as int) =~= s);
    }
}

/// Trimming twice trims no more than once.
pub proof fn law_trim_idempotent(s: Seq<char>, dots: bool)
    ensures
        trim(trim(s, dots), dots) == trim(s, dots),
{
    let a = trim_start(s, dots);
    lemma_trim_start_shape(s, dots);
    lemma_trim_end_shape(a, dots);
    let t = trim_end(a, dots);
    // `t` begins where `a` begins, so no trimmed character starts it.
    if t.len() > 0 {
        assert(t[0] == a[0]);
    }
    assert(trim_start(t, dots) == t);
}

/// An IP or CIDR rule is saved as its text, and that text comes back as the
/// same rule when the application starts again.
pub proof fn law_saved_ip_rule_restores(s: Seq<char>)
    requires
        user_input_target(s) matches Some(TargetView::Ip(_)),
    ensures
        ({
            let t = user_input_target(s)->Some_0->Ip_0;
            &&& user_input_target(t) == Some(TargetView::Ip(t))
            &&& restored_target(t, false) == TargetView::Ip(t)
        }),
{
    law_trim_idempotent(s, false);
}

// ── DNS router ──────────────────────────────────────────────────────────────

/// Adding a domain twice manages it once.
pub proof fn law_add_domain_idempotent(ds: Seq<Seq<char>>, d: Seq<char>)
    ensures
        with_domain(with_domain(ds, d), d) == with_domain(ds, d),
{
    if !ds.contains(d) {
        assert(ds.push(d)[ds.len() as int] == d);
    }
}

/// A domain name as the application saves it: not empty, in lower case,
/// without white space, without the characters that end a host or mark
/// user information, a port or brackets (`: / ? # @ [`), without a dot at
/// either end, and not an IPv4 address.
pub open spec fn is_plain_domain(t: Seq<char>) -> bool {
    &&& t.len() > 0
    &&& forall|i: int|
        0 <= i < t.len() ==> {
            let c = #[trigger] t[i];
            &&& !is_unicode_whitespace(c)
            &&& c != ':' && c != '/' && c != '?' && c != '#' && c != '@' && c != '['
            &&& ascii_lower(c) == c
        }
    &&& t[0] != '.'
    &&& t.last() != '.'
    &&& !is_ipv4_text(t)
}

proof fn lemma_trim_keeps(t: Seq<char>, dots: bool)
    requires
        t.len() > 0,
        !trimmed_char(dots, t[0]),
        !trimmed_char(dots, t.last()),
    ensures
        trim(t, dots) == t,
{
    assert(trim_start(t, dots) == t);
}

/// A domain rule is saved as its name, and a plain domain name comes back
/// as the same domain rule when the application starts again.
pub proof fn law_saved_domain_rule_restores(t: Seq<char>)
    requires
        is_plain_domain(t),
    ensures
        user_input_target(t) == Some(TargetView::Domain(t)),
        restored_target(t, true) == TargetView::Domain(t),
{
    assert(!is_unicode_whitespace(t[0]));
    assert(!is_unicode_whitespace(t[t.len() - 1]));
    lemma_trim_keeps(t, false);
    assert(!has_char(t, '/')) by {
        if has_char(t, '/') {
            let i = choose|i: int| 0 <= i < t.len() && t[i] == '/';
            assert(t[i] != '/');
        }
    }
    assert(!is_cidr_text(t));
    // No `:`, so no IPv6 text.
    assert forall|i: int| 0 <= i < t.len() implies t[i] != ':' by {}
    assert(!has_double_colon(t)) by {
        if has_double_colon(t) {
            let k = choose|k: int| crate::ipaddr::is_double_colon_at(t, k);
            assert(t[k] != ':');
        }
    }
    lemma_split_without_sep(t, ':');
    assert(split(t, ':') =~= seq![t]);
    assert(!is_ipv6_text(t));
    assert(ip_text_family(t) is None);
    // The URL reading leaves the name as it is.
    assert(!has_scheme_sep(t)) by {
        if has_scheme_sep(t) {
            let j = choose|j: int| crate::models::is_scheme_sep_at(t, j);
            assert(t[j] != ':');
        }
    }
    assert(strip_scheme(t) == t);
    assert(is_authority_cut(t, t.len() as int));
    let k0 = choose|k: int| is_authority_cut(t, k);
    assert(is_authority_cut(t, k0));
    if k0 < t.len() {
        assert(crate::models::ends_authority(t[k0]));
    }
    assert(t.take(k0) =~= t);
    assert(authority_of(t) == t);
    assert(!has_char(t, '@')) by {
        if has_char(t, '@') {
            let i = choose|i: int| 0 <= i < t.len() && t[i] == '@';
            assert(t[i] != '@');
        }
    }
    assert(after_userinfo(t) == t);
    assert(!has_char(t, ':')) by {
        if has_char(t, ':') {
            let i = choose|i: int| 0 <= i < t.len() && t[i] == ':';
            assert(t[i] != ':');
        }
    }
    assert(t[0] != '[');
    assert(host_of(t) == t);
    lemma_trim_keeps(t, true);
    assert(lower_seq(t) =~= t);
    assert(domain_of(t) == t);
}

// ── Address text ────────────────────────────────────────────────────────────

/// The characters of textual IP addresses: hexadecimal digits, `:` and `.`.
pub open spec fn ip_char(c: char) -> bool {
    is_hex_digit(c) || c == ':' || c == '.'
}

pub open spec fn all_ip_chars(s: Seq<char>) -> bool {
    forall|i: int| 0 <= i < s.len() ==> ip_char(#[trigger] s[i])
}

/// When every piece of `s` split at `sep` is made of address characters,
/// and so is `sep`, so is `s`.
proof fn lemma_split_chars(s: Seq<char>, sep: char)
    requires
        ip_char(sep),
        forall|k: int| 0 <= k < split(s, sep).len() ==> all_ip_chars(#[trigger] split(s, sep)[k]),
    ensures
        all_ip_chars(s),
    decreases s.len(),
{
    if s.len() > 0 {
        let init = split(s.drop_last(), sep);
        lemma_split_nonempty(s.drop_last(), sep);
        let n = init.len() - 1;
        if s.last() == sep {
            assert forall|k: int| 0 <= k < init.len() implies all_ip_chars(#[trigger] init[k]) by {
                assert(split(s, sep)[k] == init[k]);
            }
        } else {
            let grown = init.last().push(s.last());
            assert(split(s, sep)[n] == grown);
            assert(all_ip_chars(grown));
            assert(ip_char(s.last())) by {
                assert(grown[init.last().len() as int] == s.last());
            }
            assert forall|k: int| 0 <= k < init.len() implies all_ip_chars(#[trigger] init[k]) by {
                if k < n {
                    assert(split(s, sep)[k] == init[k]);
                } else {
                    assert forall|i: int| 0 <= i < init[k].len() implies ip_char(#[trigger] init[k][i]) by {
                        assert(grown[i] == init[k][i]);
                    }
                }
            }
        }
        lemma_split_chars(s.drop_last(), sep);
        assert forall|i: int| 0 <= i < s.len() implies ip_char(#[trigger] s[i]) by {
            if i < s.len() - 1 {
                assert(s.drop_last()[i] == s[i]);
            }
        }
    }
}

proof fn lemma_ipv4_chars(s: Seq<char>)
    requires
        is_ipv4_text(s),
    ensures
        all_ip_chars(s),
{
    let ps = split(s, '.');
    assert forall|k: int| 0 <= k < ps.len() implies all_ip_chars(#[trigger] ps[k]) by {
        assert(is_dec_octet(ps[k]));
        assert forall|i: int| 0 <= i < ps[k].len() implies ip_char(#[trigger] ps[k][i]) by {
            assert(is_digit(ps[k][i]));
        }
    }
    lemma_split_chars(s, '.');
}

proof fn lemma_hex_group_chars(p: Seq<char>)
    requires
        is_hex_group(p),
    ensures
        all_ip_chars(p),
{
    assert forall|i: int| 0 <= i < p.len() implies ip_char(#[trigger] p[i]) by {
        assert(is_hex_digit(p[i]));
    }
}

proof fn lemma_groups_chars(ps: Seq<Seq<char>>)
    requires
        groups_ok(ps),
    ensures
        forall|k: int| 0 <= k < ps.len() ==> all_ip_chars(#[trigger] ps[k]),
{
    assert forall|k: int| 0 <= k < ps.len() implies all_ip_chars(#[trigger] ps[k]) by {
        if k < ps.len() - 1 {
            assert(is_hex_group(ps[k]));
            lemma_hex_group_chars(ps[k]);
        } else if is_hex_group(ps.last()) {
            lemma_hex_group_chars(ps[k]);
        } else {
            lemma_ipv4_chars(ps[k]);
        }
    }
}

proof fn lemma_pieces_chars(s: Seq<char>)
    requires
        forall|k: int| 0 <= k < pieces(s, ':').len() ==> all_ip_chars(#[trigger] pieces(s, ':')[k]),
    ensures
        all_ip_chars(s),
{
    if s.len() > 0 {
        assert(pieces(s, ':') == split(s, ':'));
        lemma_split_chars(s, ':');
    }
}

proof fn lemma_first_double_colon_exists(s: Seq<char>, w: int)
    requires
        is_double_colon_at(s, w),
    ensures
        exists|j: int| is_first_double_colon(s, j),
    decreases w,
{
    if forall|j: int| 0 <= j < w ==> !is_double_colon_at(s, j) {
        assert(is_first_double_colon(s, w));
    } else {
        let j = choose|j: int| 0 <= j < w && is_double_colon_at(s, j);
        lemma_first_double_colon_exists(s, j);
    }
}

proof fn lemma_ipv6_chars(s: Seq<char>)
    requires
        is_ipv6_text(s),
    ensures
        all_ip_chars(s),
{
    if has_double_colon(s) {
        let k = first_double_colon(s);
        let w = choose|j: int| is_double_colon_at(s, j);
        lemma_first_double_colon_exists(s, w);
        assert(is_first_double_colon(s, k));
        let head = s.take(k);
        let tail = s.skip(k + 2);
        assert forall|j: int| 0 <= j < pieces(head, ':').len() implies all_ip_chars(
            #[trigger] pieces(head, ':')[j],
        ) by {
            lemma_hex_group_chars(pieces(head, ':')[j]);
        }
        lemma_pieces_chars(head);
        lemma_groups_chars(pieces(tail, ':'));
        lemma_pieces_chars(tail);
        assert forall|i: int| 0 <= i < s.len() implies ip_char(#[trigger] s[i]) by {
            if i < k {
                assert(head[i] == s[i]);
            } else if i >= k + 2 {
                assert(tail[i - k - 2] == s[i]);
            }
        }
    } else {
        lemma_groups_chars(split(s, ':'));
        lemma_split_chars(s, ':');
    }
}

/// Every character of a textual IP address is a hexadecimal digit, `:` or
/// `.`.
proof fn lemma_ip_text_chars(s: Seq<char>)
    requires
        ip_text_family(s) is Some,
    ensures
        all_ip_chars(s),
        !has_char(s, '/'),
{
    if is_ipv4_text(s) {
        lemma_ipv4_chars(s);
    } else {
        lemma_ipv6_chars(s);
    }
    if has_char(s, '/') {
        let i = choose|i: int| 0 <= i < s.len() && s[i] == '/';
        assert(ip_char(s[i]));
    }
}

// ── Resolved addresses ──────────────────────────────────────────────────────

/// An address that the resolver gave, made the range of its one host, is
/// read back with the same family: resolved addresses always get their
/// `ip rule`s.
pub proof fn law_host_cidr_keeps_family(addr: Seq<char>, family: IpFamily)
    requires
        ip_text_family(addr) == Some(family),
    ensures
        cidr_family_of(host_cidr(addr, family)) == Some(family),
{
    lemma_ip_text_chars(addr);
    let v = host_cidr(addr, family);
    reveal_strlit("/32");
    reveal_strlit("/128");
    assert(v.len() > addr.len());
    assert(v[addr.len() as int] == '/');
    assert(has_char(v, '/'));
    assert(is_first_index(v, '/', addr.len() as int)) by {
        assert forall|j: int| 0 <= j < addr.len() implies v[j] != '/' by {
            assert(v[j] == addr[j]);
            if addr[j] == '/' {
                assert(has_char(addr, '/'));
            }
        }
    }
    lemma_first_index_unique(v, '/', addr.len() as int);
    assert(v.take(addr.len() as int) =~= addr);
    assert(cidr_address(v) == addr);
}

// ── The helper accepts what the user typed ──────────────────────────────────

/// Every character of a text made of address characters is allowed in an
/// address for the helper.
proof fn lemma_ip_chars_allowed(t: Seq<char>)
    requires
        all_ip_chars(t),
    ensures
        forall|i: int| 0 <= i < t.len() ==> iface_char_ok(#[trigger] t[i]),
{
    assert forall|i: int| 0 <= i < t.len() implies iface_char_ok(#[trigger] t[i]) by {
        assert(ip_char(t[i]));
    }
}

/// An IP or CIDR rule that the window accepts passes the helper's check of
/// destinations, in the family that the manager gives it, unless its prefix
/// is written with a `+` (which reading the prefix as a `u8` allows and the
/// helper's character check does not) or the text is longer than 64 bytes.
pub proof fn law_user_ip_rule_passes_helper(s: Seq<char>)
    requires
        user_input_target(s) matches Some(TargetView::Ip(t)) && !has_char(t, '+')
            && vstd::utf8::encode_utf8(t).len() <= 64,
    ensures
        ({
            let t = user_input_target(s)->Some_0->Ip_0;
            &&& cidr_family_of(t) is Some
            &&& cidr_check(t, cidr_family_of(t)->Some_0) is Ok
        }),
{
    let t = trim(s, false);
    assert(user_input_target(s)->Some_0->Ip_0 == t);
    lemma_encode_empty(t);
    if has_char(t, '/') {
        if ip_text_family(t) is Some {
            lemma_ip_text_chars(t);
        }
        assert(is_cidr_text(t));
        let k = first_index(t, '/');
        let a = t.take(k);
        let p = t.skip(k + 1);
        let f = ip_text_family(a)->Some_0;
        lemma_first_index_exists(t, '/');
        assert(cidr_address(t) == a);
        lemma_ip_text_chars(a);
        // The prefix is digits only: a `+` would have to be in `t`.
        assert(parse_u8_text(p) is Some);
        if p.len() > 1 && p[0] == '+' {
            assert(t[k + 1] == '+');
            assert(has_char(t, '+'));
        }
        assert(u8_digits(p) == p);
        assert forall|i: int| 0 <= i < t.len() implies iface_char_ok(#[trigger] t[i]) by {
            if i < k {
                assert(a[i] == t[i]);
                assert(ip_char(a[i]));
            } else if i > k {
                assert(p[i - k - 1] == t[i]);
                assert(is_digit(p[i - k - 1]));
            }
        }
        assert(!(exists|i: int| 0 <= i < t.len() && !iface_char_ok(#[trigger] t[i])));
        assert(ip_or_iface_check(t, "destination"@) is Ok);
    } else {
        assert(!is_cidr_text(t));
        assert(ip_text_family(t) is Some);
        lemma_ip_text_chars(t);
        lemma_ip_chars_allowed(t);
        assert(!(exists|i: int| 0 <= i < t.len() && !iface_char_ok(#[trigger] t[i])));
        assert(ip_or_iface_check(t, "destination"@) is Ok);
        assert(cidr_address(t) == t);
    }
}

// ── Turning off undoes turning on ───────────────────────────────────────────

/// The kernel clean-up removes what `op` adds: a default route of a table
/// that it flushes in that family, or an `ip rule` whose priority lies in a
/// range that it flushes in that family.
pub open spec fn cleared_by_reset(op: OpView) -> bool {
    match op {
        OpView::AddRoute { table, family, .. } => exists|k: int|
            0 <= k < reset_kernel_plan().len() && #[trigger] reset_kernel_plan()[k]
                == (OpView::FlushTable { table, family }),
        OpView::AddRule { priority, family, .. } => exists|k: int|
            0 <= k < reset_kernel_plan().len() && (#[trigger] reset_kernel_plan()[k] matches OpView::FlushRulesInRange {
                min_priority,
                max_priority,
                family: f,
            } && f == family && min_priority <= priority <= max_priority),
        _ => false,
    }
}

proof fn lemma_cleared(op: OpView)
    requires
        op matches OpView::AddRoute { table, .. } ==> table == ROUTELANE_TABLE,
        op matches OpView::AddRule { priority, .. } ==> PRIORITY_BASE <= priority <= PRIORITY_MAX,
        op is AddRoute || op is AddRule,
    ensures
        cleared_by_reset(op),
{
    let r = reset_kernel_plan();
    match op {
        OpView::AddRoute { table, family, .. } => {
            match family {
                IpFamily::V4 => assert(r[2] == (OpView::FlushTable { table, family })),
                IpFamily::V6 => assert(r[3] == (OpView::FlushTable { table, family })),
            }
        },
        OpView::AddRule { priority, family, .. } => {
            match family {
                IpFamily::V4 => assert(r[0] matches OpView::FlushRulesInRange {
                    min_priority,
                    max_priority,
                    family: f,
                } && f == family && min_priority <= priority <= max_priority),
                IpFamily::V6 => assert(r[1] matches OpView::FlushRulesInRange {
                    min_priority,
                    max_priority,
                    family: f,
                } && f == family && min_priority <= priority <= max_priority),
            }
        },
        _ => {},
    }
}

proof fn lemma_route_plan_shape(
    interface: Seq<char>,
    fams: FamilySet,
    gw4: Option<Seq<char>>,
    gw6: Option<Seq<char>>,
)
    ensures
        route_plan(interface, fams, gw4, gw6) matches Ok((ops, _)) ==> forall|k: int|
            0 <= k < ops.len() ==> (#[trigger] ops[k] matches OpView::AddRoute { table, .. }
                && table == ROUTELANE_TABLE),
{
}

proof fn lemma_rules_plan_in_range(rules: Seq<RuleView>, routed: FamilySet)
    requires
        forall|i: int| 0 <= i < rules.len() ==> PRIORITY_BASE <= #[trigger] rules[i].priority <= PRIORITY_MAX,
    ensures
        rules_rule_plan(rules, routed) matches Ok(ops) ==> forall|k: int|
            0 <= k < ops.len() ==> (#[trigger] ops[k] matches OpView::AddRule { table, priority, .. }
                && table == ROUTELANE_TABLE && PRIORITY_BASE <= priority <= PRIORITY_MAX),
    decreases rules.len(),
{
    if rules.len() > 0 {
        let init = rules.drop_last();
        assert forall|i: int| 0 <= i < init.len() implies PRIORITY_BASE <= #[trigger] init[i].priority
            <= PRIORITY_MAX by {
            assert(init[i] == rules[i]);
        }
        lemma_rules_plan_in_range(init, routed);
        let last = rules.last();
        assert(last == rules[rules.len() - 1]);
        law_ip_rules_in_owned_table(last.resolved_ips, last.priority, routed);
        match rules_rule_plan(init, routed) {
            Ok(ops) => match ip_rule_plan(last.resolved_ips, last.priority, routed) {
                Ok(more) => {
                    let all = ops + more;
                    assert forall|k: int| 0 <= k < all.len() implies (#[trigger] all[k] matches OpView::AddRule {
                        table,
                        priority,
                        ..
                    } && table == ROUTELANE_TABLE && PRIORITY_BASE <= priority <= PRIORITY_MAX) by {
                        if k < ops.len() {
                            assert(all[k] == ops[k]);
                        } else {
                            assert(all[k] == more[k - ops.len()]);
                        }
                    }
                },
                Err(_) => {},
            },
            Err(_) => {},
        }
    }
}

/// Turning routing off removes everything that turning it on put into the
/// kernel: every route and `ip rule` of the activation plan is cleared by
/// the clean-up that deactivation plans.
pub proof fn law_off_undoes_on(m: ManagerView, gw4: Option<Seq<char>>, gw6: Option<Seq<char>>)
    requires
        manager_wf(m),
    ensures
        activation_plan(m, gw4, gw6) matches Ok(Some(ops)) ==> forall|k: int|
            0 <= k < ops.len() ==> cleared_by_reset(#[trigger] ops[k]),
{
    match activation_plan(m, gw4, gw6) {
        Ok(Some(all)) => {
            let iface = m.alt_interface->Some_0;
            let fams = required_families_of(m.rules);
            let (ops, routed) = route_plan(iface, fams, gw4, gw6)->Ok_0;
            let more = rules_rule_plan(m.rules, routed)->Ok_0;
            assert(all == ops + more);
            lemma_route_plan_shape(iface, fams, gw4, gw6);
            assert forall|i: int| 0 <= i < m.rules.len() implies PRIORITY_BASE
                <= #[trigger] m.rules[i].priority <= PRIORITY_MAX by {
                assert(m.rules[i].id < m.next_id);
            }
            lemma_rules_plan_in_range(m.rules, routed);
            assert forall|k: int| 0 <= k < all.len() implies cleared_by_reset(#[trigger] all[k]) by {
                if k < ops.len() {
                    assert(all[k] == ops[k]);
                } else {
                    assert(all[k] == more[k - ops.len()]);
                }
                lemma_cleared(all[k]);
            }
        },
        _ => {},
    }
}

/// A rule added while routing is on is removed again when routing is
/// turned off.
pub proof fn law_off_undoes_add(
    m: ManagerView,
    ips: Seq<Seq<char>>,
    interface: Seq<char>,
    gw4: Option<Seq<char>>,
    gw6: Option<Seq<char>>,
)
    requires
        manager_wf(m),
    ensures
        add_rule_plan(m, ips, interface, gw4, gw6) matches Ok(ops) ==> forall|k: int|
            0 <= k < ops.len() ==> cleared_by_reset(#[trigger] ops[k]),
{
    law_add_rule_plan_in_owned_table(m, ips, interface, gw4, gw6);
    match add_rule_plan(m, ips, interface, gw4, gw6) {
        Ok(ops) => {
            assert forall|k: int| 0 <= k < ops.len() implies cleared_by_reset(#[trigger] ops[k]) by {
                lemma_cleared(ops[k]);
            }
        },
        Err(_) => {},
    }
}

/// The addresses that a refresh adds while routing is on are removed again
/// when routing is turned off.
pub proof fn law_off_undoes_refresh(
    m: ManagerView,
    id: u64,
    fresh: Seq<Seq<char>>,
    gw4: Option<Seq<char>>,
    gw6: Option<Seq<char>>,
)
    requires
        manager_wf(m),
    ensures
        refresh_plan(m, id, fresh, gw4, gw6) matches Ok((_, ops)) ==> forall|k: int|
            0 <= k < ops.len() ==> cleared_by_reset(#[trigger] ops[k]),
{
    match refresh_plan(m, id, fresh, gw4, gw6) {
        Ok((added, all)) => {
            if all.len() > 0 {
                let r = m.rules[rule_index(m.rules, id)];
                let k0 = rule_index(m.rules, id);
                assert(m.rules[k0].id < m.next_id);
                let iface = m.alt_interface->Some_0;
                let fams = crate::manager::ips_families(added)->Ok_0;
                let (ops, routed) = route_plan(iface, fams, gw4, gw6)->Ok_0;
                let more = ip_rule_plan(added, r.priority, routed)->Ok_0;
                assert(all == ops + more);
                lemma_route_plan_shape(iface, fams, gw4, gw6);
                law_ip_rules_in_owned_table(added, r.priority, routed);
                assert forall|k: int| 0 <= k < all.len() implies cleared_by_reset(#[trigger] all[k]) by {
                    if k < ops.len() {
                        assert(all[k] == ops[k]);
                    } else {
                        assert(all[k] == more[k - ops.len()]);
                    }
                    lemma_cleared(all[k]);
                }
            }
        },
        Err(_) => {},
    }
}

// ── What the operations are for ─────────────────────────────────────────────

/// The scheme of a URL ends at its first `://`: when `s` is `p`, then
/// `://`, then `q`, and no `://` starts inside `p` (nor overlaps its end),
/// what follows the scheme is `q`, whatever `q` holds (a URL in its query
/// too).
pub proof fn law_scheme_ends_at_first_separator(p: Seq<char>, q: Seq<char>)
    requires
        forall|i: int|
            0 <= i < p.len() ==> !(#[trigger] (p + "://"@ + q)[i] == ':' && (p + "://"@ + q)[i + 1]
                == '/' && (p + "://"@ + q)[i + 2] == '/'),
    ensures
        strip_scheme(p + "://"@ + q) == q,
{
    reveal_strlit("://");
    let s = p + "://"@ + q;
    let n = p.len() as int;
    assert(s[n] == ':' && s[n + 1] == '/' && s[n + 2] == '/');
    assert(crate::models::is_scheme_sep_at(s, n));
    assert(crate::models::is_first_scheme_sep(s, n));
    assert(has_scheme_sep(s));
    let j = choose|j: int| crate::models::is_first_scheme_sep(s, j);
    assert(crate::models::is_first_scheme_sep(s, j));
    if j < n {
        assert(!crate::models::is_scheme_sep_at(s, j));
    }
    if n < j {
        assert(!crate::models::is_scheme_sep_at(s, n));
    }
    assert(s.skip(n + 3) =~= q);
}

/// IPv6 is routed whenever it is needed and has a gateway, whatever IPv4
/// needs: the plan then succeeds (unless IPv4 is needed without a gateway),
/// routes IPv6, and holds the IPv6 default route of the table through that
/// gateway on the interface; likewise for IPv4 with its gateway.
pub proof fn law_each_family_routed_on_its_own(
    interface: Seq<char>,
    fams: FamilySet,
    gw4: Option<Seq<char>>,
    gw6: Option<Seq<char>>,
)
    ensures
        fams.v6 && gw6 is Some && !(fams.v4 && gw4 is None) ==> (route_plan(
            interface,
            fams,
            gw4,
            gw6,
        ) matches Ok((ops, routed)) && routed.v6 && exists|k: int|
            0 <= k < ops.len() && #[trigger] ops[k] == (OpView::AddRoute {
                gateway: gw6->0,
                interface,
                table: 100,
                family: IpFamily::V6,
            })),
        fams.v4 && gw4 is Some ==> (route_plan(interface, fams, gw4, gw6) matches Ok((ops, routed))
            && routed.v4 && exists|k: int|
            0 <= k < ops.len() && #[trigger] ops[k] == (OpView::AddRoute {
                gateway: gw4->0,
                interface,
                table: 100,
                family: IpFamily::V4,
            })),
{
    match route_plan(interface, fams, gw4, gw6) {
        Ok((ops, routed)) => {
            let n4: int = if fams.v4 { 1 } else { 0 };
            if fams.v4 {
                assert(ops[0] == (OpView::AddRoute {
                    gateway: gw4->0,
                    interface,
                    table: 100,
                    family: IpFamily::V4,
                }));
            }
            if fams.v6 && gw6 is Some {
                assert(ops[n4] == (OpView::AddRoute {
                    gateway: gw6->0,
                    interface,
                    table: 100,
                    family: IpFamily::V6,
                }));
            }
        },
        Err(_) => {},
    }
}

/// The characters that the helper takes in an address or an interface
/// name: ASCII letters and digits, `.`, `:`, `/`, `-`, `_` and `@`.
pub open spec fn allowed_in_name(c: char) -> bool {
    ||| ('a' <= c && c <= 'z')
    ||| ('A' <= c && c <= 'Z')
    ||| ('0' <= c && c <= '9')
    ||| c == '.' || c == ':' || c == '/' || c == '-' || c == '_' || c == '@'
}

/// A value of 1 to 64 bytes passes the helper's check of addresses and
/// interface names exactly when every character is one of the allowed
/// ones (so `wg-mullvad` or `tun0` pass, `eth0;rm` does not).
pub proof fn law_names_of_allowed_characters_pass(value: Seq<char>, field: Seq<char>)
    requires
        1 <= vstd::utf8::encode_utf8(value).len() <= 64,
    ensures
        (ip_or_iface_check(value, field) is Ok) == (forall|i: int|
            0 <= i < value.len() ==> allowed_in_name(#[trigger] value[i])),
{
    if forall|i: int| 0 <= i < value.len() ==> allowed_in_name(#[trigger] value[i]) {
        assert forall|i: int| 0 <= i < value.len() implies iface_char_ok(#[trigger] value[i]) by {
            assert(allowed_in_name(value[i]));
        }
    } else {
        let i = choose|i: int| 0 <= i < value.len() && !allowed_in_name(#[trigger] value[i]);
        assert(!iface_char_ok(value[i]));
    }
}

/// A rule listing holds a rule of an earlier run exactly when some entry,
/// at any position, has a priority from 10000 to 10999.
pub proof fn law_leftover_found_anywhere(es: Seq<IpJsonView>)
    ensures
        holds_owned_rule(es) == (exists|i: int|
            0 <= i < es.len() && (#[trigger] es[i].priority matches Some(p) && 10000 <= p
                <= 10999)),
{
    if holds_owned_rule(es) {
        let i = choose|i: int| 0 <= i < es.len() && crate::executor::in_owned_range(#[trigger] es[i].priority);
        assert(es[i].priority matches Some(p) && 10000 <= p <= 10999);
    }
    if exists|i: int| 0 <= i < es.len() && (#[trigger] es[i].priority matches Some(p) && 10000 <= p <= 10999) {
        let i = choose|i: int| 0 <= i < es.len() && (#[trigger] es[i].priority matches Some(p) && 10000 <= p <= 10999);
        assert(crate::executor::in_owned_range(es[i].priority));
    }
}

/// Tearing the DNS router down undoes its set-up: for both chains, the
/// `iptables` arguments that set-up adds (`-A`) come back with `-D`, and
/// every `iptables` step of the teardown deletes (`-D`), none adds.
pub proof fn law_teardown_deletes_the_marks()
    ensures
        exists|k: int|
            0 <= k < teardown_steps_of().len() && #[trigger] teardown_steps_of()[k] == (
            "iptables"@,
            mark_args_of("-A"@, "OUTPUT"@).update(2, "-D"@),
        ),
        exists|k: int|
            0 <= k < teardown_steps_of().len() && #[trigger] teardown_steps_of()[k] == (
            "iptables"@,
            mark_args_of("-A"@, "PREROUTING"@).update(2, "-D"@),
        ),
        forall|k: int|
            0 <= k < teardown_steps_of().len() && #[trigger] teardown_steps_of()[k].0
                == "iptables"@ ==> teardown_steps_of()[k].1[2] == "-D"@,
{
    reveal_strlit("iptables");
    reveal_strlit("ip");
    reveal_strlit("ipset");
    let t = teardown_steps_of();
    assert(mark_args_of("-A"@, "OUTPUT"@).update(2, "-D"@) =~= mark_args_of("-D"@, "OUTPUT"@));
    assert(mark_args_of("-A"@, "PREROUTING"@).update(2, "-D"@) =~= mark_args_of(
        "-D"@,
        "PREROUTING"@,
    ));
    assert(t[1] == ("iptables"@, mark_args_of("-D"@, "OUTPUT"@)));
    assert(t[2] == ("iptables"@, mark_args_of("-D"@, "PREROUTING"@)));
    assert forall|k: int|
        0 <= k < t.len() && #[trigger] t[k].0 == "iptables"@ implies t[k].1[2] == "-D"@ by {
        assert("ip"@.len() != "iptables"@.len());
        assert("ipset"@.len() != "iptables"@.len());
        if k == 0 || k == 3 {
            assert(t[k].0 == "ip"@);
        } else if k >= 4 {
            assert(t[k].0 == "ipset"@);
        }
    }
}

} // verus!
