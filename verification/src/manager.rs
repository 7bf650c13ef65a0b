//! The routing state manager, a two-phase model.
//!
//! Off: rules are only kept here; nothing is planned for the kernel.
//! On: turning on plans the routing table and every rule for the kernel; a
//! rule added while on is planned at once; turning off plans the clean-up of
//! the kernel and keeps the rule list.
//!
//! Every kernel change is planned here as a batch of helper operations; the
//! caller runs the batch and, when it succeeded, reports back so that the
//! state follows.
use vstd::prelude::*;

use crate::executor::{
    has_leftover_rules, leftover_in, opt_bytes, PRIORITY_BASE, PRIORITY_MAX, ROUTELANE_TABLE,
};
use crate::ipaddr::{ip_family_at, ip_text_family};
use crate::models::{
    ops_view, HelperOp, IpFamily, OpView, RoutingRule, RuleTarget, RuleView, TargetView,
};
use crate::text::{
    append_str, chars_of, dec_text, find_char, first_index, has_char, lemma_first_index_unique,
    push_decimal, string_of, texts_of,
};

verus! {

// ── Address families ────────────────────────────────────────────────────────

/// A set of address families.
#[derive(Debug, Clone, Copy, PartialEq, Eq, Structural)]
pub struct FamilySet {
    pub v4: bool,
    pub v6: bool,
}

pub open spec fn has_family(s: FamilySet, f: IpFamily) -> bool {
    match f {
        IpFamily::V4 => s.v4,
        IpFamily::V6 => s.v6,
    }
}

pub open spec fn with_family(s: FamilySet, f: IpFamily) -> FamilySet {
    match f {
        IpFamily::V4 => FamilySet { v4: true, v6: s.v6 },
        IpFamily::V6 => FamilySet { v4: s.v4, v6: true },
    }
}

/// The address part of `address` or `address/prefix`.
pub open spec fn cidr_address(v: Seq<char>) -> Seq<char> {
    if has_char(v, '/') {
        v.take(first_index(v, '/'))
    } else {
        v
    }
}

/// The family of an address or range; the prefix is not read.
pub open spec fn cidr_family_of(v: Seq<char>) -> Option<IpFamily> {
    ip_text_family(cidr_address(v))
}

pub open spec fn bad_cidr_message(v: Seq<char>) -> Seq<char> {
    "Geçersiz IP/CIDR: "@ + v
}

pub open spec fn family_view(r: Result<IpFamily, String>) -> Result<IpFamily, Seq<char>> {
    match r {
        Ok(f) => Ok(f),
        Err(e) => Err(e@),
    }
}

/// The family of an address or range, or the error that names it.
pub fn cidr_family(value: &str) -> (r: Result<IpFamily, String>)
    ensures
        family_view(r) == (match cidr_family_of(value@) {
            Some(f) => Ok(f),
            None => Err(bad_cidr_message(value@)),
        }),
{
    let v = chars_of(value);
    let n = v.len();
    assert(v@.subrange(0, n as int) =~= value@);
    let end = match find_char(&v, 0, n, '/') {
        Some(k) => {
            proof {
                lemma_first_index_unique(value@, '/', k as int);
                assert(value@.take(k as int) =~= v@.subrange(0, k as int));
            }
            k
        },
        None => n,
    };
    match ip_family_at(&v, 0, end) {
        Some(f) => Ok(f),
        None => {
            let mut m = string_of("Geçersiz IP/CIDR: ");
            append_str(&mut m, value);
            Err(m)
        },
    }
}

/// The families of a list of addresses, or the error for the first one
/// that is not an address or range.
pub open spec fn ips_families(ips: Seq<Seq<char>>) -> Result<FamilySet, Seq<char>>
    decreases ips.len(),
{
    if ips.len() == 0 {
        Ok(FamilySet { v4: false, v6: false })
    } else {
        match ips_families(ips.drop_last()) {
            Err(e) => Err(e),
            Ok(s) => match cidr_family_of(ips.last()) {
                None => Err(bad_cidr_message(ips.last())),
                Some(f) => Ok(with_family(s, f)),
            },
        }
    }
}

pub open spec fn families_view(r: Result<FamilySet, String>) -> Result<FamilySet, Seq<char>> {
    match r {
        Ok(f) => Ok(f),
        Err(e) => Err(e@),
    }
}

/// The families of the addresses, or the error for the first bad one.
pub fn families_of(ips: &Vec<String>) -> (r: Result<FamilySet, String>)
    ensures
        families_view(r) == ips_families(texts_of(ips@)),
{
    let ghost all = texts_of(ips@);
    let mut s = FamilySet { v4: false, v6: false };
    let mut i: usize = 0;
    assert(all.take(0) =~= Seq::<Seq<char>>::empty());
    while i < ips.len()
        invariant
            i <= ips.len(),
            all == texts_of(ips@),
            ips_families(all.take(i as int)) == Ok::<FamilySet, Seq<char>>(s),
        decreases ips.len() - i,
    {
        assert(all.take(i + 1).drop_last() =~= all.take(i as int));
        assert(all.take(i + 1).last() == ips[i as int]@);
        match cidr_family(ips[i].as_str()) {
            Err(e) => {
                proof {
                    lemma_families_err_extends(all, i as int + 1);
                }
                return Err(e);
            },
            Ok(f) => {
                s = match f {
                    IpFamily::V4 => FamilySet { v4: true, v6: s.v6 },
                    IpFamily::V6 => FamilySet { v4: s.v4, v6: true },
                };
            },
        }
        i = i + 1;
    }
    assert(all.take(ips.len() as int) =~= all);
    Ok(s)
}

proof fn lemma_families_err_extends(ips: Seq<Seq<char>>, k: int)
    requires
        0 <= k <= ips.len(),
        ips_families(ips.take(k)) is Err,
    ensures
        ips_families(ips) == ips_families(ips.take(k)),
    decreases ips.len() - k,
{
    if k < ips.len() {
        assert(ips.take(k + 1).drop_last() =~= ips.take(k));
        lemma_families_err_extends(ips, k + 1);
    } else {
        assert(ips.take(k) =~= ips);
    }
}

// ── Planned operations ──────────────────────────────────────────────────────

pub open spec fn add_route_op(gateway: Seq<char>, interface: Seq<char>, f: IpFamily) -> OpView {
    OpView::AddRoute { gateway, interface, table: ROUTELANE_TABLE, family: f }
}

pub open spec fn add_rule_op(ip: Seq<char>, priority: u32, f: IpFamily) -> OpView {
    OpView::AddRule { destination: ip, table: ROUTELANE_TABLE, priority, family: f }
}

/// The default routes of the table for the families that need one, and the
/// families that got one: IPv4 needs a gateway; IPv6 without a gateway is
/// left out; when no family that is needed is routed, nothing is.
pub open spec fn route_plan(
    interface: Seq<char>,
    fams: FamilySet,
    gw4: Option<Seq<char>>,
    gw6: Option<Seq<char>>,
) -> Result<(Seq<OpView>, FamilySet), Seq<char>> {
    if fams.v4 && gw4 is None {
        Err("'"@ + interface + "' için IPv4 gateway bulunamadı"@)
    } else {
        let ops4 = if fams.v4 {
            seq![add_route_op(gw4->0, interface, IpFamily::V4)]
        } else {
            Seq::empty()
        };
        let r6 = fams.v6 && gw6 is Some;
        let ops6 = if r6 {
            seq![add_route_op(gw6->0, interface, IpFamily::V6)]
        } else {
            Seq::empty()
        };
        if (fams.v4 || fams.v6) && !(fams.v4 || r6) {
            Err("'"@ + interface + "' için uygun gateway bulunamadı"@)
        } else {
            Ok((ops4 + ops6, FamilySet { v4: fams.v4, v6: r6 }))
        }
    }
}

pub open spec fn opt_text(o: Option<String>) -> Option<Seq<char>> {
    match o {
        Some(s) => Some(s@),
        None => None,
    }
}

pub open spec fn route_ops_view(r: Result<(Vec<HelperOp>, FamilySet), String>) -> Result<
    (Seq<OpView>, FamilySet),
    Seq<char>,
> {
    match r {
        Ok((ops, f)) => Ok((ops_view(ops@), f)),
        Err(e) => Err(e@),
    }
}

/// The `ip rule` of each address whose family is routed, in order; the
/// first address that is not one is an error.
pub open spec fn ip_rule_plan(ips: Seq<Seq<char>>, priority: u32, routed: FamilySet) -> Result<
    Seq<OpView>,
    Seq<char>,
>
    decreases ips.len(),
{
    if ips.len() == 0 {
        Ok(Seq::empty())
    } else {
        match ip_rule_plan(ips.drop_last(), priority, routed) {
            Err(e) => Err(e),
            Ok(ops) => match cidr_family_of(ips.last()) {
                None => Err(bad_cidr_message(ips.last())),
                Some(f) => if has_family(routed, f) {
                    Ok(ops.push(add_rule_op(ips.last(), priority, f)))
                } else {
                    Ok(ops)
                },
            },
        }
    }
}

pub open spec fn seq_ops_view(r: Result<Vec<HelperOp>, String>) -> Result<Seq<OpView>, Seq<char>> {
    match r {
        Ok(ops) => Ok(ops_view(ops@)),
        Err(e) => Err(e@),
    }
}

/// Appends one `ip rule` per routed address of `ips`.
fn push_ip_rules(ops: &mut Vec<HelperOp>, ips: &Vec<String>, priority: u32, routed: FamilySet) -> (r:
    Result<(), String>)
    ensures
        match ip_rule_plan(texts_of(ips@), priority, routed) {
            Ok(more) => r is Ok && ops_view(final(ops)@) == ops_view(old(ops)@) + more,
            Err(e) => r matches Err(m) && m@ == e,
        },
{
    let ghost all = texts_of(ips@);
    let ghost start = ops_view(ops@);
    let mut i: usize = 0;
    assert(all.take(0) =~= Seq::<Seq<char>>::empty());
    assert(start =~= start + Seq::<OpView>::empty());
    while i < ips.len()
        invariant
            i <= ips.len(),
            all == texts_of(ips@),
            ip_rule_plan(all.take(i as int), priority, routed) matches Ok(more) && ops_view(ops@)
                == start + more,
        decreases ips.len() - i,
    {
        let ghost before = ops_view(ops@);
        assert(all.take(i + 1).drop_last() =~= all.take(i as int));
        assert(all.take(i + 1).last() == ips[i as int]@);
        match cidr_family(ips[i].as_str()) {
            Err(e) => {
                proof {
                    lemma_rule_plan_err_extends(all, i as int + 1, priority, routed);
                }
                return Err(e);
            },
            Ok(f) => {
                let routed_here = match f {
                    IpFamily::V4 => routed.v4,
                    IpFamily::V6 => routed.v6,
                };
                if routed_here {
                    ops.push(
                        HelperOp::AddRule {
                            destination: ips[i].clone(),
                            table: ROUTELANE_TABLE,
                            priority,
                            family: f,
                        },
                    );
                    assert(ops_view(ops@) =~= before.push(
                        add_rule_op(ips[i as int]@, priority, f),
                    ));
                }
            },
        }
        i = i + 1;
    }
    assert(all.take(ips.len() as int) =~= all);
    Ok(())
}

/// Once the plan of a prefix of the addresses fails, the plan of the whole
/// list fails with the same error.
proof fn lemma_rule_plan_err_extends(ips: Seq<Seq<char>>, k: int, priority: u32, routed: FamilySet)
    requires
        0 <= k <= ips.len(),
        ip_rule_plan(ips.take(k), priority, routed) is Err,
    ensures
        ip_rule_plan(ips, priority, routed) == ip_rule_plan(ips.take(k), priority, routed),
    decreases ips.len() - k,
{
    if k < ips.len() {
        assert(ips.take(k + 1).drop_last() =~= ips.take(k));
        lemma_rule_plan_err_extends(ips, k + 1, priority, routed);
    } else {
        assert(ips.take(k) =~= ips);
    }
}


pub open spec fn rule_view_seq(rules: Seq<RoutingRule>) -> Seq<RuleView> {
    rules.map_values(|r: RoutingRule| r@)
}

/// The `ip rule`s of the rules, rule by rule, address by address; the first
/// bad address is an error.
pub open spec fn rules_rule_plan(rules: Seq<RuleView>, routed: FamilySet) -> Result<
    Seq<OpView>,
    Seq<char>,
>
    decreases rules.len(),
{
    if rules.len() == 0 {
        Ok(Seq::empty())
    } else {
        match rules_rule_plan(rules.drop_last(), routed) {
            Err(e) => Err(e),
            Ok(ops) => match ip_rule_plan(rules.last().resolved_ips, rules.last().priority, routed) {
                Err(e) => Err(e),
                Ok(more) => Ok(ops + more),
            },
        }
    }
}

proof fn lemma_rules_plan_err_extends(rules: Seq<RuleView>, k: int, routed: FamilySet)
    requires
        0 <= k <= rules.len(),
        rules_rule_plan(rules.take(k), routed) is Err,
    ensures
        rules_rule_plan(rules, routed) == rules_rule_plan(rules.take(k), routed),
    decreases rules.len() - k,
{
    if k < rules.len() {
        assert(rules.take(k + 1).drop_last() =~= rules.take(k));
        lemma_rules_plan_err_extends(rules, k + 1, routed);
    } else {
        assert(rules.take(k) =~= rules);
    }
}

/// Whether some address of some rule is of the family.
pub open spec fn rules_use_family(rules: Seq<RuleView>, f: IpFamily) -> bool {
    exists|i: int, j: int|
        0 <= i < rules.len() && 0 <= j < rules[i].resolved_ips.len() && cidr_family_of(
            #[trigger] rules[i].resolved_ips[j],
        ) == Some(f)
}

/// The families that the rules' addresses need; bad addresses are passed
/// over.
pub open spec fn required_families_of(rules: Seq<RuleView>) -> FamilySet {
    FamilySet { v4: rules_use_family(rules, IpFamily::V4), v6: rules_use_family(rules, IpFamily::V6) }
}

/// The clean-up of everything the application put into the kernel: its
/// rule priorities and its table, in both families.
pub open spec fn reset_kernel_plan() -> Seq<OpView> {
    seq![
        OpView::FlushRulesInRange {
            min_priority: PRIORITY_BASE,
            max_priority: PRIORITY_MAX,
            family: IpFamily::V4,
        },
        OpView::FlushRulesInRange {
            min_priority: PRIORITY_BASE,
            max_priority: PRIORITY_MAX,
            family: IpFamily::V6,
        },
        OpView::FlushTable { table: ROUTELANE_TABLE, family: IpFamily::V4 },
        OpView::FlushTable { table: ROUTELANE_TABLE, family: IpFamily::V6 },
    ]
}

/// The manager's state.
pub struct ManagerView {
    pub rules: Seq<RuleView>,
    pub next_id: u64,
    pub next_priority: u32,
    pub is_active: bool,
    pub alt_interface: Option<Seq<char>>,
}

/// Holds the configured rules (whatever the kernel holds), whether routing
/// is on, and the interface that the user chose.
pub struct RoutingStateManager {
    rules: Vec<RoutingRule>,
    next_id: u64,
    next_priority: u32,
    is_active: bool,
    alt_interface: Option<String>,
}

impl View for RoutingStateManager {
    type V = ManagerView;

    closed spec fn view(&self) -> ManagerView {
        ManagerView {
            rules: rule_view_seq(self.rules@),
            next_id: self.next_id,
            next_priority: self.next_priority,
            is_active: self.is_active,
            alt_interface: opt_text(self.alt_interface),
        }
    }
}

/// Ids and priorities are handed out in increasing order and never twice:
/// every rule's id is below the next id, its priority in the owned range
/// below the next priority, and both grow along the list. Ids and
/// priorities are handed out together, so the next id counts the
/// priorities used, and no priority beyond the owned range is ever given.
pub open spec fn manager_wf(m: ManagerView) -> bool {
    &&& PRIORITY_BASE <= m.next_priority <= PRIORITY_MAX + 1
    &&& m.next_id + PRIORITY_BASE == m.next_priority
    &&& forall|i: int|
        0 <= i < m.rules.len() ==> #[trigger] m.rules[i].id < m.next_id && PRIORITY_BASE
            <= m.rules[i].priority < m.next_priority
    &&& forall|i: int, j: int|
        0 <= i < j < m.rules.len() ==> #[trigger] m.rules[i].id < #[trigger] m.rules[j].id
            && m.rules[i].priority < m.rules[j].priority
}

pub open spec fn has_rule(rules: Seq<RuleView>, id: u64) -> bool {
    exists|k: int| 0 <= k < rules.len() && #[trigger] rules[k].id == id
}

pub open spec fn rule_index(rules: Seq<RuleView>, id: u64) -> int {
    choose|k: int| 0 <= k < rules.len() && #[trigger] rules[k].id == id
}

pub open spec fn missing_rule_message(id: u64) -> Seq<char> {
    "Kural "@ + dec_text(id as nat) + " bulunamadı"@
}

/// The error when every priority of the owned range is in use.
pub open spec fn range_full_message() -> Seq<char> {
    "Öncelik aralığı [10000,10999] dolu"@
}

pub open spec fn no_interface_message() -> Seq<char> {
    "Önce bir yönlendirme ağı seçin"@
}

/// What turning routing on plans: nothing when it is on already; else the
/// default routes of the chosen interface for the families the rules need,
/// then every rule's `ip rule`s.
pub open spec fn activation_plan(
    m: ManagerView,
    gw4: Option<Seq<char>>,
    gw6: Option<Seq<char>>,
) -> Result<Option<Seq<OpView>>, Seq<char>> {
    if m.is_active {
        Ok(None)
    } else {
        match m.alt_interface {
            None => Err(no_interface_message()),
            Some(iface) => match route_plan(iface, required_families_of(m.rules), gw4, gw6) {
                Err(e) => Err(e),
                Ok((ops, routed)) => match rules_rule_plan(m.rules, routed) {
                    Err(e) => Err(e),
                    Ok(more) => Ok(Some(ops + more)),
                },
            },
        }
    }
}

/// What adding a rule plans: an error when no priority of the owned range
/// is left; nothing while routing is off; else the default routes of the
/// rule's interface and its `ip rule`s at the next priority.
pub open spec fn add_rule_plan(
    m: ManagerView,
    ips: Seq<Seq<char>>,
    interface: Seq<char>,
    gw4: Option<Seq<char>>,
    gw6: Option<Seq<char>>,
) -> Result<Seq<OpView>, Seq<char>> {
    if m.next_priority > PRIORITY_MAX {
        Err(range_full_message())
    } else if !m.is_active {
        Ok(Seq::empty())
    } else {
        match ips_families(ips) {
            Err(e) => Err(e),
            Ok(fams) => match route_plan(interface, fams, gw4, gw6) {
                Err(e) => Err(e),
                Ok((ops, routed)) => match ip_rule_plan(ips, m.next_priority, routed) {
                    Err(e) => Err(e),
                    Ok(more) => Ok(ops + more),
                },
            },
        }
    }
}

/// The rule that the next add makes: the next id and the next priority.
pub open spec fn next_rule(
    m: ManagerView,
    target: TargetView,
    ips: Seq<Seq<char>>,
    interface: Seq<char>,
) -> RuleView {
    RuleView { id: m.next_id, target, resolved_ips: ips, interface, priority: m.next_priority }
}

/// The manager with a rule added at the end, and the next id and priority
/// moved on.
pub open spec fn with_rule(m: ManagerView, r: RuleView) -> ManagerView {
    ManagerView {
        rules: m.rules.push(r),
        next_id: (m.next_id + 1) as u64,
        next_priority: (m.next_priority + 1) as u32,
        ..m
    }
}

/// How an add ends, given the outcome of everything before the commit
/// (resolving the domain, planning, running the batch): a failure changes
/// nothing and is given back; so does a full priority range; else the
/// rule is added.
pub open spec fn add_step(
    m: ManagerView,
    target: TargetView,
    ips: Seq<Seq<char>>,
    interface: Seq<char>,
    outcome: Result<(), Seq<char>>,
) -> (ManagerView, Result<RuleView, Seq<char>>) {
    match outcome {
        Err(e) => (m, Err(e)),
        Ok(_) => if m.next_priority > PRIORITY_MAX {
            (m, Err(range_full_message()))
        } else {
            let r = next_rule(m, target, ips, interface);
            (with_rule(m, r), Ok(r))
        },
    }
}

/// How a step that commits only after its batch ends: the batch's error is
/// given back and the state stays as it was.
pub open spec fn unit_outcome(r: Result<(), String>) -> Result<(), Seq<char>> {
    match r {
        Ok(_) => Ok(()),
        Err(e) => Err(e@),
    }
}

pub open spec fn rule_outcome(r: Result<RoutingRule, String>) -> Result<RuleView, Seq<char>> {
    match r {
        Ok(x) => Ok(x@),
        Err(e) => Err(e@),
    }
}

/// The addresses of `fresh` that `existing` lacks, in order.
pub open spec fn new_ips(existing: Seq<Seq<char>>, fresh: Seq<Seq<char>>) -> Seq<Seq<char>>
    decreases fresh.len(),
{
    if fresh.len() == 0 {
        Seq::empty()
    } else {
        let init = new_ips(existing, fresh.drop_last());
        if existing.contains(fresh.last()) {
            init
        } else {
            init.push(fresh.last())
        }
    }
}

/// What refreshing a domain rule with freshly resolved addresses gives: the
/// new addresses, and, while routing is on, the routes and `ip rule`s that
/// put them into the kernel at the rule's priority.
pub open spec fn refresh_plan(
    m: ManagerView,
    id: u64,
    fresh: Seq<Seq<char>>,
    gw4: Option<Seq<char>>,
    gw6: Option<Seq<char>>,
) -> Result<(Seq<Seq<char>>, Seq<OpView>), Seq<char>> {
    if !has_rule(m.rules, id) {
        Err(missing_rule_message(id))
    } else {
        let r = m.rules[rule_index(m.rules, id)];
        if r.target is Ip {
            Ok((Seq::empty(), Seq::empty()))
        } else {
            let added = new_ips(r.resolved_ips, fresh);
            if added.len() == 0 || !m.is_active {
                Ok((added, Seq::empty()))
            } else {
                match m.alt_interface {
                    None => Err(no_interface_message()),
                    Some(iface) => match ips_families(added) {
                        Err(e) => Err(e),
                        Ok(fams) => match route_plan(iface, fams, gw4, gw6) {
                            Err(e) => Err(e),
                            Ok((ops, routed)) => match ip_rule_plan(added, r.priority, routed) {
                                Err(e) => Err(e),
                                Ok(more) => Ok((added, ops + more)),
                            },
                        },
                    },
                }
            }
        }
    }
}

pub open spec fn domain_ids(rules: Seq<RuleView>) -> Seq<u64>
    decreases rules.len(),
{
    if rules.len() == 0 {
        Seq::empty()
    } else if rules.last().target is Domain {
        domain_ids(rules.drop_last()).push(rules.last().id)
    } else {
        domain_ids(rules.drop_last())
    }
}

pub open spec fn opt_str(o: Option<&str>) -> Option<Seq<char>> {
    match o {
        Some(s) => Some(s@),
        None => None,
    }
}

/// A copy of a list of strings.
pub fn copy_strings(v: &Vec<String>) -> (r: Vec<String>)
    ensures
        texts_of(r@) == texts_of(v@),
{
    let mut r: Vec<String> = Vec::new();
    let mut i: usize = 0;
    while i < v.len()
        invariant
            i <= v.len(),
            r.len() == i,
            texts_of(r@) == texts_of(v@).take(i as int),
        decreases v.len() - i,
    {
        let ghost before = r@;
        let c = v[i].clone();
        assert(c == v@[i as int]);
        r.push(c);
        assert(r@ == before.push(c));
        assert forall|k: int| 0 <= k < i + 1 implies #[trigger] texts_of(r@)[k] == texts_of(
            v@,
        ).take(i + 1)[k] by {
            if k < i {
                assert(texts_of(before)[k] == texts_of(v@).take(i as int)[k]);
            }
        }
        assert(texts_of(r@) =~= texts_of(v@).take(i + 1));
        i = i + 1;
    }
    assert(texts_of(v@).take(v.len() as int) =~= texts_of(v@));
    r
}

/// A copy of a rule target.
pub fn copy_target(t: &RuleTarget) -> (r: RuleTarget)
    ensures
        r@ == t@,
{
    match t {
        RuleTarget::Ip(s) => RuleTarget::Ip(s.clone()),
        RuleTarget::Domain(s) => RuleTarget::Domain(s.clone()),
    }
}

/// A copy of a rule.
pub fn copy_rule(r: &RoutingRule) -> (c: RoutingRule)
    ensures
        c@ == r@,
{
    RoutingRule {
        id: r.id,
        target: copy_target(&r.target),
        resolved_ips: copy_strings(&r.resolved_ips),
        interface: r.interface.clone(),
        priority: r.priority,
    }
}

/// The addresses that a rule routes: an IP target's own text, or the
/// resolved addresses of a domain.
pub fn resolved_ips_for(target: &RuleTarget, resolved: Vec<String>) -> (r: Vec<String>)
    ensures
        texts_of(r@) == (match target@ {
            TargetView::Ip(ip) => seq![ip],
            TargetView::Domain(_) => texts_of(resolved@),
        }),
{
    match target {
        RuleTarget::Ip(ip) => {
            let mut v: Vec<String> = Vec::new();
            v.push(ip.clone());
            assert(texts_of(v@) =~= seq![ip@]);
            v
        },
        RuleTarget::Domain(_) => resolved,
    }
}

/// The families of each address list, where bad addresses count for none.
fn list_families(ips: &Vec<String>) -> (r: FamilySet)
    ensures
        r.v4 == exists|j: int|
            0 <= j < ips.len() && cidr_family_of(#[trigger] texts_of(ips@)[j]) == Some(
                IpFamily::V4,
            ),
        r.v6 == exists|j: int|
            0 <= j < ips.len() && cidr_family_of(#[trigger] texts_of(ips@)[j]) == Some(
                IpFamily::V6,
            ),
{
    let ghost all = texts_of(ips@);
    let mut r = FamilySet { v4: false, v6: false };
    let mut j: usize = 0;
    while j < ips.len()
        invariant
            j <= ips.len(),
            all == texts_of(ips@),
            r.v4 == exists|k: int|
                0 <= k < j && cidr_family_of(#[trigger] all[k]) == Some(IpFamily::V4),
            r.v6 == exists|k: int|
                0 <= k < j && cidr_family_of(#[trigger] all[k]) == Some(IpFamily::V6),
        decreases ips.len() - j,
    {
        assert(all[j as int] == ips[j as int]@);
        match cidr_family(ips[j].as_str()) {
            Ok(IpFamily::V4) => {
                r = FamilySet { v4: true, v6: r.v6 };
            },
            Ok(IpFamily::V6) => {
                r = FamilySet { v4: r.v4, v6: true };
            },
            Err(_) => {},
        }
        j = j + 1;
    }
    r
}

impl RoutingStateManager {
    pub open spec fn wf(&self) -> bool {
        manager_wf(self@)
    }

    /// No rules, routing off, no interface chosen.
    pub fn new() -> (m: Self)
        ensures
            m.wf(),
            m@.rules.len() == 0,
            m@.next_id == 0,
            m@.next_priority == PRIORITY_BASE,
            !m@.is_active,
            m@.alt_interface is None,
    {
        RoutingStateManager {
            rules: Vec::new(),
            next_id: 0,
            next_priority: PRIORITY_BASE,
            is_active: false,
            alt_interface: None,
        }
    }

    /// Records the user's choice of interface; nothing is planned for the
    /// kernel, it takes effect when routing is turned on.
    pub fn set_alt_interface_preference(&mut self, interface: &str)
        requires
            old(self).wf(),
        ensures
            final(self).wf(),
            final(self)@.alt_interface == Some(interface@),
            final(self)@.rules == old(self)@.rules,
            final(self)@.next_id == old(self)@.next_id,
            final(self)@.next_priority == old(self)@.next_priority,
            final(self)@.is_active == old(self)@.is_active,
    {
        let ghost before = self@;
        self.alt_interface = Some(string_of(interface));
        assert(self@.rules == before.rules);
        assert(self@.next_priority == before.next_priority);
        assert(manager_wf(before));
        assert(manager_wf(self@));
    }

    /// Forgets the user's choice of interface; nothing is planned for the
    /// kernel.
    pub fn clear_alt_interface_preference(&mut self)
        requires
            old(self).wf(),
        ensures
            final(self).wf(),
            final(self)@.alt_interface is None,
            final(self)@.rules == old(self)@.rules,
            final(self)@.next_id == old(self)@.next_id,
            final(self)@.next_priority == old(self)@.next_priority,
            final(self)@.is_active == old(self)@.is_active,
    {
        let ghost before = self@;
        self.alt_interface = None;
        assert(self@.rules == before.rules);
        assert(manager_wf(self@));
    }

    pub fn is_active(&self) -> (r: bool)
        ensures
            r == self@.is_active,
    {
        self.is_active
    }

    pub fn alt_interface(&self) -> (r: Option<&str>)
        ensures
            opt_str(r) == self@.alt_interface,
    {
        match &self.alt_interface {
            Some(s) => Some(s.as_str()),
            None => None,
        }
    }

    /// The configured rules, in the order they were added.
    pub fn rules(&self) -> (r: &Vec<RoutingRule>)
        ensures
            rule_view_seq(r@) == self@.rules,
    {
        &self.rules
    }

    /// The ids of the domain rules (IP rules left out), in order.
    pub fn domain_rule_ids(&self) -> (r: Vec<u64>)
        ensures
            r@ == domain_ids(self@.rules),
    {
        let ghost all = self@.rules;
        let mut r: Vec<u64> = Vec::new();
        let mut i: usize = 0;
        assert(all.take(0) =~= Seq::<RuleView>::empty());
        while i < self.rules.len()
            invariant
                i <= self.rules.len(),
                all == self@.rules,
                r@ == domain_ids(all.take(i as int)),
            decreases self.rules.len() - i,
        {
            assert(all.take(i + 1).drop_last() =~= all.take(i as int));
            assert(all.take(i + 1).last() == self.rules[i as int]@);
            if self.rules[i].target.is_domain() {
                r.push(self.rules[i].id);
            }
            i = i + 1;
        }
        assert(all.take(self.rules.len() as int) =~= all);
        r
    }

    /// The families that the rules' addresses need.
    pub fn required_families(&self) -> (r: FamilySet)
        ensures
            r == required_families_of(self@.rules),
    {
        let ghost all = self@.rules;
        let mut r = FamilySet { v4: false, v6: false };
        let mut i: usize = 0;
        while i < self.rules.len()
            invariant
                i <= self.rules.len(),
                all == self@.rules,
                r.v4 == exists|a: int, b: int|
                    0 <= a < i && 0 <= b < all[a].resolved_ips.len() && cidr_family_of(
                        #[trigger] all[a].resolved_ips[b],
                    ) == Some(IpFamily::V4),
                r.v6 == exists|a: int, b: int|
                    0 <= a < i && 0 <= b < all[a].resolved_ips.len() && cidr_family_of(
                        #[trigger] all[a].resolved_ips[b],
                    ) == Some(IpFamily::V6),
            decreases self.rules.len() - i,
        {
            let f = list_families(&self.rules[i].resolved_ips);
            assert(all[i as int].resolved_ips == texts_of(self.rules[i as int].resolved_ips@));
            r = FamilySet { v4: r.v4 || f.v4, v6: r.v6 || f.v6 };
            i = i + 1;
        }
        r
    }

    /// The default routes of the table on `interface` for the families that
    /// need one, and the families that got one.
    pub fn route_ops_for_families(
        &self,
        interface: &str,
        families: FamilySet,
        gw4: Option<String>,
        gw6: Option<String>,
    ) -> (r: Result<(Vec<HelperOp>, FamilySet), String>)
        ensures
            route_ops_view(r) == route_plan(interface@, families, opt_text(gw4), opt_text(gw6)),
    {
        route_ops(interface, families, gw4, gw6)
    }

    /// Plans turning routing on; `gw4` and `gw6` are the chosen interface's
    /// gateways. `Ok(None)`: routing is on already.
    pub fn activate_all(&self, gw4: Option<String>, gw6: Option<String>) -> (r: Result<
        Option<Vec<HelperOp>>,
        String,
    >)
        ensures
            (match r {
                Ok(Some(ops)) => Ok(Some(ops_view(ops@))),
                Ok(None) => Ok(None),
                Err(e) => Err(e@),
            }) == activation_plan(self@, opt_text(gw4), opt_text(gw6)),
    {
        if self.is_active {
            return Ok(None);
        }
        let interface = match &self.alt_interface {
            Some(s) => s,
            None => return Err(string_of("Önce bir yönlendirme ağı seçin")),
        };
        let families = self.required_families();
        let ghost g4 = opt_text(gw4);
        let ghost g6 = opt_text(gw6);
        let (mut ops, routed) = match route_ops(interface.as_str(), families, gw4, gw6) {
            Ok(x) => x,
            Err(e) => return Err(e),
        };
        let ghost all = self@.rules;
        assert(self@.alt_interface == Some(interface@));
        assert(route_plan(interface@, required_families_of(all), g4, g6) == Ok::<
            (Seq<OpView>, FamilySet),
            Seq<char>,
        >((ops_view(ops@), routed)));
        let ghost start = ops_view(ops@);
        let mut i: usize = 0;
        assert(all.take(0) =~= Seq::<RuleView>::empty());
        assert(start =~= start + Seq::<OpView>::empty());
        while i < self.rules.len()
            invariant
                i <= self.rules.len(),
                all == self@.rules,
                !self@.is_active,
                self@.alt_interface == Some(interface@),
                route_plan(interface@, required_families_of(all), g4, g6) == Ok::<
                    (Seq<OpView>, FamilySet),
                    Seq<char>,
                >((start, routed)),
                g4 == opt_text(gw4),
                g6 == opt_text(gw6),
                rules_rule_plan(all.take(i as int), routed) matches Ok(more) && ops_view(ops@)
                    == start + more,
            decreases self.rules.len() - i,
        {
            let ghost before = ops_view(ops@);
            assert(all.take(i + 1).drop_last() =~= all.take(i as int));
            assert(all.take(i + 1).last() == self.rules[i as int]@);
            match push_ip_rules(&mut ops, &self.rules[i].resolved_ips, self.rules[i].priority, routed) {
                Err(e) => {
                    proof {
                        let rv = self.rules[i as int]@;
                        assert(ip_rule_plan(rv.resolved_ips, rv.priority, routed) is Err);
                        assert(rules_rule_plan(all.take(i + 1), routed) is Err);
                        lemma_rules_plan_err_extends(all, i as int + 1, routed);
                        assert(rules_rule_plan(all, routed) == Err::<Seq<OpView>, Seq<char>>(e@));
                    }
                    return Err(e);
                },
                Ok(_) => {},
            }
            i = i + 1;
        }
        assert(all.take(self.rules.len() as int) =~= all);
        Ok(Some(ops))
    }

    /// Ends turning routing on, given how the activation batch went: on
    /// success routing is on; on failure nothing changes and the batch's
    /// error is given back.
    pub fn finish_activation(&mut self, batch: Result<(), String>) -> (r: Result<(), String>)
        requires
            old(self).wf(),
        ensures
            final(self).wf(),
            unit_outcome(r) == unit_outcome(batch),
            final(self)@ == (match batch {
                Ok(_) => ManagerView { is_active: true, ..old(self)@ },
                Err(_) => old(self)@,
            }),
    {
        match batch {
            Err(e) => Err(e),
            Ok(_) => {
                let ghost before = self@;
                self.is_active = true;
                assert(self@.rules == before.rules);
                assert(manager_wf(self@));
                Ok(())
            },
        }
    }

    /// Plans turning routing off: the kernel clean-up, or nothing when
    /// routing is off already.
    pub fn deactivate_all(&self) -> (r: Option<Vec<HelperOp>>)
        ensures
            match r {
                Some(ops) => self@.is_active && ops_view(ops@) == reset_kernel_plan(),
                None => !self@.is_active,
            },
    {
        if !self.is_active {
            return None;
        }
        Some(Self::reset_all_kernel())
    }

    /// Ends turning routing off, given how the clean-up batch went: on
    /// success routing is off and the rule list is kept; on failure nothing
    /// changes and the batch's error is given back.
    pub fn finish_deactivation(&mut self, batch: Result<(), String>) -> (r: Result<(), String>)
        requires
            old(self).wf(),
        ensures
            final(self).wf(),
            unit_outcome(r) == unit_outcome(batch),
            final(self)@ == (match batch {
                Ok(_) => ManagerView { is_active: false, ..old(self)@ },
                Err(_) => old(self)@,
            }),
    {
        match batch {
            Err(e) => Err(e),
            Ok(_) => {
                let ghost before = self@;
                self.is_active = false;
                assert(self@.rules == before.rules);
                assert(manager_wf(self@));
                Ok(())
            },
        }
    }

    /// The clean-up of the kernel state (idempotent).
    pub fn reset_all_kernel() -> (r: Vec<HelperOp>)
        ensures
            ops_view(r@) == reset_kernel_plan(),
    {
        let mut ops: Vec<HelperOp> = Vec::new();
        ops.push(
            HelperOp::FlushRulesInRange {
                min_priority: PRIORITY_BASE,
                max_priority: PRIORITY_MAX,
                family: IpFamily::V4,
            },
        );
        ops.push(
            HelperOp::FlushRulesInRange {
                min_priority: PRIORITY_BASE,
                max_priority: PRIORITY_MAX,
                family: IpFamily::V6,
            },
        );
        ops.push(HelperOp::FlushTable { table: ROUTELANE_TABLE, family: IpFamily::V4 });
        ops.push(HelperOp::FlushTable { table: ROUTELANE_TABLE, family: IpFamily::V6 });
        assert(ops_view(ops@) =~= reset_kernel_plan());
        ops
    }

    /// What the start-up clean-up plans from the IPv4 and IPv6
    /// `ip --json rule list` outputs (`None`: `ip` did not run): nothing when
    /// no rule of an earlier run is in the owned priority range; else the
    /// whole kernel clean-up, so that the helper is asked for only when needed.
    pub fn startup_cleanup(&self, v4_output: Option<Vec<u8>>, v6_output: Option<Vec<u8>>) -> (r:
        Option<Vec<HelperOp>>)
        ensures
            ({
                let left = leftover_in(opt_bytes(v4_output)) || leftover_in(opt_bytes(v6_output));
                match r {
                    None => !left,
                    Some(ops) => left && ops_view(ops@) == reset_kernel_plan(),
                }
            }),
    {
        if has_leftover_rules(v4_output, v6_output) {
            Some(Self::reset_all_kernel())
        } else {
            None
        }
    }

    /// Ends a full reset, given how the kernel clean-up went: on success
    /// every rule is forgotten, ids and priorities start over and routing is
    /// off, the chosen interface being kept; on failure nothing changes and
    /// the error is given back.
    pub fn reset_all(&mut self, batch: Result<(), String>) -> (r: Result<(), String>)
        requires
            old(self).wf(),
        ensures
            final(self).wf(),
            unit_outcome(r) == unit_outcome(batch),
            final(self)@ == (match batch {
                Ok(_) => ManagerView {
                    rules: Seq::empty(),
                    next_id: 0,
                    next_priority: PRIORITY_BASE,
                    is_active: false,
                    alt_interface: old(self)@.alt_interface,
                },
                Err(_) => old(self)@,
            }),
    {
        match batch {
            Err(e) => Err(e),
            Ok(_) => {
                self.rules = Vec::new();
                self.next_id = 0;
                self.next_priority = PRIORITY_BASE;
                self.is_active = false;
                assert(self@.rules =~= Seq::<RuleView>::empty());
                Ok(())
            },
        }
    }

    /// Plans adding a rule with the addresses `resolved_ips` through
    /// `interface`, whose gateways are `gw4` and `gw6`: nothing while
    /// routing is off.
    pub fn add_rule_ops(
        &self,
        resolved_ips: &Vec<String>,
        interface: &str,
        gw4: Option<String>,
        gw6: Option<String>,
    ) -> (r: Result<Vec<HelperOp>, String>)
        ensures
            seq_ops_view(r) == add_rule_plan(
                self@,
                texts_of(resolved_ips@),
                interface@,
                opt_text(gw4),
                opt_text(gw6),
            ),
    {
        if self.next_priority > PRIORITY_MAX {
            return Err(string_of("Öncelik aralığı [10000,10999] dolu"));
        }
        if !self.is_active {
            let ops: Vec<HelperOp> = Vec::new();
            assert(ops_view(ops@) =~= Seq::<OpView>::empty());
            return Ok(ops);
        }
        let families = match families_of(resolved_ips) {
            Ok(f) => f,
            Err(e) => return Err(e),
        };
        let (mut ops, routed) = match route_ops(interface, families, gw4, gw6) {
            Ok(x) => x,
            Err(e) => return Err(e),
        };
        match push_ip_rules(&mut ops, resolved_ips, self.next_priority, routed) {
            Ok(_) => Ok(ops),
            Err(e) => Err(e),
        }
    }

    /// Whether a priority of the owned range is left for another rule.
    pub fn can_add_rule(&self) -> (r: bool)
        ensures
            r == (self@.next_priority <= PRIORITY_MAX),
    {
        self.next_priority <= PRIORITY_MAX
    }

    /// Adds a rule (its batch, if any, ran): it gets the next id and the next
    /// priority, and goes to the end of the list.
    pub fn add_rule(&mut self, target: RuleTarget, resolved_ips: Vec<String>, interface: &str) -> (r:
        RoutingRule)
        requires
            old(self).wf(),
            old(self)@.next_priority <= PRIORITY_MAX,
        ensures
            final(self).wf(),
            final(self)@ == with_rule(old(self)@, r@),
            r@ == (RuleView {
                id: old(self)@.next_id,
                target: target@,
                resolved_ips: texts_of(resolved_ips@),
                interface: interface@,
                priority: old(self)@.next_priority,
            }),
            final(self)@.rules == old(self)@.rules.push(r@),
            final(self)@.next_id == old(self)@.next_id + 1,
            final(self)@.next_priority == old(self)@.next_priority + 1,
            final(self)@.is_active == old(self)@.is_active,
            final(self)@.alt_interface == old(self)@.alt_interface,
    {
        let priority = self.next_priority;
        self.next_priority = self.next_priority + 1;
        let id = self.next_id;
        self.next_id = self.next_id + 1;
        let rule = RoutingRule {
            id,
            target,
            resolved_ips,
            interface: string_of(interface),
            priority,
        };
        let copy = copy_rule(&rule);
        let ghost before = self@.rules;
        self.rules.push(rule);
        assert(self@.rules =~= before.push(copy@));
        copy
    }

    /// Ends adding a rule, given the outcome of everything before the
    /// commit (resolving its domain, planning, running its batch): a
    /// failure is given back and nothing changes, so no id or priority is
    /// used up; a full priority range is refused the same way; else the
    /// rule is added with the next id and priority.
    pub fn finish_add_rule(
        &mut self,
        target: RuleTarget,
        resolved_ips: Vec<String>,
        interface: &str,
        outcome: Result<(), String>,
    ) -> (r: Result<RoutingRule, String>)
        requires
            old(self).wf(),
        ensures
            final(self).wf(),
            (final(self)@, rule_outcome(r)) == add_step(
                old(self)@,
                target@,
                texts_of(resolved_ips@),
                interface@,
                unit_outcome(outcome),
            ),
    {
        match outcome {
            Err(e) => Err(e),
            Ok(_) => {
                if self.next_priority > PRIORITY_MAX {
                    return Err(string_of("Öncelik aralığı [10000,10999] dolu"));
                }
                Ok(self.add_rule(target, resolved_ips, interface))
            },
        }
    }

    /// The position of the rule with the id.
    fn find_rule(&self, id: u64) -> (r: Option<usize>)
        ensures
            match r {
                Some(k) => k < self@.rules.len() && self@.rules[k as int].id == id,
                None => !has_rule(self@.rules, id),
            },
    {
        let mut i: usize = 0;
        while i < self.rules.len()
            invariant
                i <= self.rules.len(),
                forall|k: int| 0 <= k < i ==> #[trigger] self@.rules[k].id != id,
            decreases self.rules.len() - i,
        {
            if self.rules[i].id == id {
                return Some(i);
            }
            i = i + 1;
        }
        None
    }

    /// Removes the rule with the id; while routing is on, plans the removal
    /// of its `ip rule`s from the kernel.
    pub fn remove_rule(&mut self, id: u64) -> (r: Result<Vec<HelperOp>, String>)
        requires
            old(self).wf(),
        ensures
            final(self).wf(),
            final(self)@.next_id == old(self)@.next_id,
            final(self)@.next_priority == old(self)@.next_priority,
            final(self)@.is_active == old(self)@.is_active,
            final(self)@.alt_interface == old(self)@.alt_interface,
            !has_rule(old(self)@.rules, id) ==> (r matches Err(m) && m@ == missing_rule_message(
                id,
            ) && final(self)@.rules == old(self)@.rules),
            has_rule(old(self)@.rules, id) ==> {
                let k = rule_index(old(self)@.rules, id);
                let p = old(self)@.rules[k].priority;
                &&& final(self)@.rules == old(self)@.rules.remove(k)
                &&& (r matches Ok(ops) && ops_view(ops@) == (if old(self)@.is_active {
                    seq![
                        OpView::FlushRulesInRange {
                            min_priority: p,
                            max_priority: p,
                            family: IpFamily::V4,
                        },
                        OpView::FlushRulesInRange {
                            min_priority: p,
                            max_priority: p,
                            family: IpFamily::V6,
                        },
                    ]
                } else {
                    Seq::empty()
                }))
            },
    {
        match self.find_rule(id) {
            None => {
                let mut m = string_of("Kural ");
                push_decimal(&mut m, id);
                append_str(&mut m, " bulunamadı");
                Err(m)
            },
            Some(k) => {
                proof {
                    lemma_rule_index(self@, id, k as int);
                }
                let ghost before = self@.rules;
                let rule = self.rules.remove(k);
                assert(self@.rules =~= before.remove(k as int));
                let mut ops: Vec<HelperOp> = Vec::new();
                if self.is_active {
                    ops.push(
                        HelperOp::FlushRulesInRange {
                            min_priority: rule.priority,
                            max_priority: rule.priority,
                            family: IpFamily::V4,
                        },
                    );
                    ops.push(
                        HelperOp::FlushRulesInRange {
                            min_priority: rule.priority,
                            max_priority: rule.priority,
                            family: IpFamily::V6,
                        },
                    );
                }
                assert(ops_view(ops@) =~= (if self@.is_active {
                    seq![
                        OpView::FlushRulesInRange {
                            min_priority: rule.priority,
                            max_priority: rule.priority,
                            family: IpFamily::V4,
                        },
                        OpView::FlushRulesInRange {
                            min_priority: rule.priority,
                            max_priority: rule.priority,
                            family: IpFamily::V6,
                        },
                    ]
                } else {
                    Seq::<OpView>::empty()
                }));
                Ok(ops)
            },
        }
    }
}

/// With unique ids, the position of a rule is the one that holds its id.
proof fn lemma_rule_index(m: ManagerView, id: u64, k: int)
    requires
        manager_wf(m),
        0 <= k < m.rules.len(),
        m.rules[k].id == id,
    ensures
        has_rule(m.rules, id),
        rule_index(m.rules, id) == k,
{
    let k0 = rule_index(m.rules, id);
    assert(has_rule(m.rules, id));
    if k0 != k {
        if k0 < k {
            assert(m.rules[k0].id < m.rules[k].id);
        } else {
            assert(m.rules[k].id < m.rules[k0].id);
        }
    }
}

/// Whether some string of `v` holds the text of `s`.
fn contains_string(v: &Vec<String>, s: &String) -> (r: bool)
    ensures
        r == texts_of(v@).contains(s@),
{
    let mut j: usize = 0;
    while j < v.len()
        invariant
            j <= v.len(),
            forall|k: int| 0 <= k < j ==> texts_of(v@)[k] != s@,
        decreases v.len() - j,
    {
        if v[j] == *s {
            assert(texts_of(v@)[j as int] == s@);
            return true;
        }
        j = j + 1;
    }
    false
}

/// The strings of `fresh` whose text `existing` lacks, in order.
fn new_strings(existing: &Vec<String>, fresh: &Vec<String>) -> (r: Vec<String>)
    ensures
        texts_of(r@) == new_ips(texts_of(existing@), texts_of(fresh@)),
{
    let ghost ex = texts_of(existing@);
    let ghost all = texts_of(fresh@);
    let mut r: Vec<String> = Vec::new();
    let mut i: usize = 0;
    assert(all.take(0) =~= Seq::<Seq<char>>::empty());
    assert(texts_of(r@) =~= Seq::<Seq<char>>::empty());
    while i < fresh.len()
        invariant
            i <= fresh.len(),
            ex == texts_of(existing@),
            all == texts_of(fresh@),
            texts_of(r@) == new_ips(ex, all.take(i as int)),
        decreases fresh.len() - i,
    {
        assert(all.take(i + 1).drop_last() =~= all.take(i as int));
        assert(all.take(i + 1).last() == fresh[i as int]@);
        if !contains_string(existing, &fresh[i]) {
            let ghost before = r@;
            let c = fresh[i].clone();
            r.push(c);
            assert(texts_of(r@) =~= texts_of(before).push(fresh[i as int]@));
        }
        i = i + 1;
    }
    assert(all.take(fresh.len() as int) =~= all);
    r
}

impl RoutingStateManager {
    /// The domain to resolve anew for the rule with the id; `None` for an
    /// IP rule, which has nothing to refresh.
    pub fn refresh_target(&self, id: u64) -> (r: Result<Option<String>, String>)
        requires
            self.wf(),
        ensures
            !has_rule(self@.rules, id) ==> (r matches Err(m) && m@ == missing_rule_message(id)),
            has_rule(self@.rules, id) ==> match self@.rules[rule_index(self@.rules, id)].target {
                TargetView::Ip(_) => r == Ok::<Option<String>, String>(None),
                TargetView::Domain(d) => r matches Ok(Some(s)) && s@ == d,
            },
    {
        match self.find_rule(id) {
            None => {
                let mut m = string_of("Kural ");
                push_decimal(&mut m, id);
                append_str(&mut m, " bulunamadı");
                Err(m)
            },
            Some(k) => {
                proof {
                    lemma_rule_index(self@, id, k as int);
                }
                match &self.rules[k].target {
                    RuleTarget::Ip(_) => Ok(None),
                    RuleTarget::Domain(d) => Ok(Some(d.clone())),
                }
            },
        }
    }

    /// Compares the freshly resolved addresses of a domain rule with the
    /// ones it has: gives the new ones and, while routing is on, plans the
    /// routes and `ip rule`s that add them to the kernel (old addresses are
    /// kept so that open connections survive). `gw4` and `gw6` are the
    /// chosen interface's gateways.
    pub fn refresh_rule_ips(
        &self,
        id: u64,
        fresh: &Vec<String>,
        gw4: Option<String>,
        gw6: Option<String>,
    ) -> (r: Result<(Vec<String>, Vec<HelperOp>), String>)
        requires
            self.wf(),
        ensures
            (match r {
                Ok((added, ops)) => Ok((texts_of(added@), ops_view(ops@))),
                Err(e) => Err(e@),
            }) == refresh_plan(self@, id, texts_of(fresh@), opt_text(gw4), opt_text(gw6)),
    {
        let k = match self.find_rule(id) {
            None => {
                let mut m = string_of("Kural ");
                push_decimal(&mut m, id);
                append_str(&mut m, " bulunamadı");
                return Err(m);
            },
            Some(k) => k,
        };
        proof {
            lemma_rule_index(self@, id, k as int);
        }
        let rule = &self.rules[k];
        assert(self@.rules[k as int] == rule@);
        if !rule.target.is_domain() {
            let added: Vec<String> = Vec::new();
            let ops: Vec<HelperOp> = Vec::new();
            assert(texts_of(added@) =~= Seq::<Seq<char>>::empty());
            assert(ops_view(ops@) =~= Seq::<OpView>::empty());
            return Ok((added, ops));
        }
        let added = new_strings(&rule.resolved_ips, fresh);
        if added.len() == 0 || !self.is_active {
            let ops: Vec<HelperOp> = Vec::new();
            assert(ops_view(ops@) =~= Seq::<OpView>::empty());
            return Ok((added, ops));
        }
        let interface = match &self.alt_interface {
            Some(s) => s,
            None => return Err(string_of("Önce bir yönlendirme ağı seçin")),
        };
        let families = match families_of(&added) {
            Ok(f) => f,
            Err(e) => return Err(e),
        };
        let (mut ops, routed) = match route_ops(interface.as_str(), families, gw4, gw6) {
            Ok(x) => x,
            Err(e) => return Err(e),
        };
        match push_ip_rules(&mut ops, &added, rule.priority, routed) {
            Ok(_) => Ok((added, ops)),
            Err(e) => Err(e),
        }
    }

    /// The new addresses of a refresh were put into the kernel (or routing is
    /// off): the rule keeps its addresses and gains the new ones at the end.
    pub fn record_refreshed_ips(&mut self, id: u64, added: &Vec<String>)
        requires
            old(self).wf(),
            has_rule(old(self)@.rules, id),
        ensures
            final(self).wf(),
            ({
                let k = rule_index(old(self)@.rules, id);
                let r = old(self)@.rules[k];
                final(self)@.rules == old(self)@.rules.update(
                    k,
                    RuleView { resolved_ips: r.resolved_ips + texts_of(added@), ..r },
                )
            }),
            final(self)@.next_id == old(self)@.next_id,
            final(self)@.next_priority == old(self)@.next_priority,
            final(self)@.is_active == old(self)@.is_active,
            final(self)@.alt_interface == old(self)@.alt_interface,
    {
        let k = match self.find_rule(id) {
            Some(k) => k,
            None => {
                return;
            },
        };
        proof {
            lemma_rule_index(self@, id, k as int);
        }
        let ghost before = self@;
        let old_rule = copy_rule(&self.rules[k]);
        let mut ips = copy_strings(&old_rule.resolved_ips);
        let mut i: usize = 0;
        while i < added.len()
            invariant
                i <= added.len(),
                texts_of(ips@) == texts_of(old_rule.resolved_ips@) + texts_of(added@).take(
                    i as int,
                ),
            decreases added.len() - i,
        {
            let ghost b = ips@;
            ips.push(added[i].clone());
            assert(texts_of(ips@) =~= texts_of(b).push(added[i as int]@));
            assert(texts_of(added@).take(i + 1) =~= texts_of(added@).take(i as int).push(
                added[i as int]@,
            ));
            i = i + 1;
        }
        assert(texts_of(added@).take(added.len() as int) =~= texts_of(added@));
        let new_rule = RoutingRule {
            id: old_rule.id,
            target: copy_target(&old_rule.target),
            resolved_ips: ips,
            interface: old_rule.interface.clone(),
            priority: old_rule.priority,
        };
        self.rules.set(k, new_rule);
        assert(self@.rules =~= before.rules.update(
            k as int,
            RuleView { resolved_ips: before.rules[k as int].resolved_ips + texts_of(added@), ..before.rules[k as int] },
        ));
        proof {
            lemma_update_ips_keeps_wf(before, k as int, texts_of(self.rules@[k as int].resolved_ips@));
        }
    }
}

/// Giving a rule other addresses keeps the manager well formed: ids and
/// priorities are untouched.
proof fn lemma_update_ips_keeps_wf(m: ManagerView, k: int, ips: Seq<Seq<char>>)
    requires
        manager_wf(m),
        0 <= k < m.rules.len(),
    ensures
        manager_wf(ManagerView { rules: m.rules.update(k, RuleView { resolved_ips: ips, ..m.rules[k] }), ..m }),
{
    let rules = m.rules.update(k, RuleView { resolved_ips: ips, ..m.rules[k] });
    assert forall|i: int| 0 <= i < rules.len() implies rules[i].id == m.rules[i].id
        && rules[i].priority == m.rules[i].priority by {}
    let n = ManagerView { rules, ..m };
    assert forall|i: int|
        0 <= i < n.rules.len() implies #[trigger] n.rules[i].id < n.next_id && PRIORITY_BASE
            <= n.rules[i].priority < n.next_priority by {
        assert(m.rules[i].id < m.next_id);
    }
    assert forall|i: int, j: int|
        0 <= i < j < n.rules.len() implies #[trigger] n.rules[i].id < #[trigger] n.rules[j].id
            && n.rules[i].priority < n.rules[j].priority by {
        assert(m.rules[i].id < m.rules[j].id);
    }
}

/// The default routes for the families that need one.
fn route_ops(interface: &str, families: FamilySet, gw4: Option<String>, gw6: Option<String>) -> (r:
    Result<(Vec<HelperOp>, FamilySet), String>)
    ensures
        route_ops_view(r) == route_plan(interface@, families, opt_text(gw4), opt_text(gw6)),
{
    let mut ops: Vec<HelperOp> = Vec::new();
    let mut routed = FamilySet { v4: false, v6: false };
    if families.v4 {
        match gw4 {
            None => {
                let mut m = string_of("'");
                append_str(&mut m, interface);
                append_str(&mut m, "' için IPv4 gateway bulunamadı");
                return Err(m);
            },
            Some(gateway) => {
                ops.push(
                    HelperOp::AddRoute {
                        gateway,
                        interface: string_of(interface),
                        table: ROUTELANE_TABLE,
                        family: IpFamily::V4,
                    },
                );
                routed = FamilySet { v4: true, v6: false };
            },
        }
    }
    let ghost ops4 = ops_view(ops@);
    if families.v6 {
        match gw6 {
            Some(gateway) => {
                ops.push(
                    HelperOp::AddRoute {
                        gateway,
                        interface: string_of(interface),
                        table: ROUTELANE_TABLE,
                        family: IpFamily::V6,
                    },
                );
                routed = FamilySet { v4: routed.v4, v6: true };
            },
            None => {},
        }
    }
    if (families.v4 || families.v6) && !(routed.v4 || routed.v6) {
        let mut m = string_of("'");
        append_str(&mut m, interface);
        append_str(&mut m, "' için uygun gateway bulunamadı");
        return Err(m);
    }
    proof {
        let plan = route_plan(interface@, families, opt_text(gw4), opt_text(gw6));
        assert(ops_view(ops@) =~= plan->Ok_0.0);
    }
    Ok((ops, routed))
}

} // verus!
