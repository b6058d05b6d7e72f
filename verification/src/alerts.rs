//! The alert data model and its urgency ordering.
//!
//! A [`Severity`] is one of three urgency levels, `Page` being the most
//! urgent. An [`Alert`] is one reported issue: a severity, an event name and
//! the affected resource. A fetched collection of alerts is sorted by
//! urgency first, with the event and resource strings as tie-breaks, so that
//! the rendered frame lists the most urgent alerts on top.
use vstd::prelude::*;
use vstd::multiset::Multiset;
use vstd::relations::{sorted_by, total_ordering};
use vstd::seq_lib::lemma_sorted_unique;

verus! {

/// Urgency of one alert, most urgent first.
#[derive(Clone, Copy, Debug, PartialEq, Eq, Structural)]
pub enum Severity {
    Page,
    Warn,
    Other,
}

/// Numeric rank of a severity: lower means more urgent.
pub open spec fn rank(s: Severity) -> int {
    match s {
        Severity::Page => 0,
        Severity::Warn => 1,
        Severity::Other => 2,
    }
}

impl Severity {
    /// Executable rank, equal to the specification rank.
    pub fn rank_exec(self) -> (r: u8)
        ensures
            r as int == rank(self),
    {
        match self {
            Severity::Page => 0,
            Severity::Warn => 1,
            Severity::Other => 2,
        }
    }
}

/// One alert as the mathematical model sees it: the severity and the two
/// strings as character sequences.
pub struct AlertView {
    pub severity: Severity,
    pub event: Seq<char>,
    pub resource: Seq<char>,
}

/// One reported issue from the monitoring source.
#[derive(Clone, Debug, PartialEq, Eq)]
pub struct Alert {
    pub severity: Severity,
    pub event: String,
    pub resource: String,
}

impl View for Alert {
    type V = AlertView;

    open spec fn view(&self) -> AlertView {
        AlertView { severity: self.severity, event: self.event@, resource: self.resource@ }
    }
}

/// The models of a sequence of alerts, element by element.
pub open spec fn alert_views(s: Seq<Alert>) -> Seq<AlertView> {
    Seq::new(s.len(), |i: int| s[i]@)
}

/// Lexicographic "less than or equal" on character sequences, by code point.
pub open spec fn lex_le(a: Seq<char>, b: Seq<char>) -> bool
    decreases a.len(),
{
    if a.len() == 0 {
        true
    } else if b.len() == 0 {
        false
    } else if (a[0] as int) < (b[0] as int) {
        true
    } else if (a[0] as int) > (b[0] as int) {
        false
    } else {
        lex_le(a.drop_first(), b.drop_first())
    }
}

/// The ordering rule for alerts: more urgent first; between alerts of equal
/// severity, the event and then the resource break the tie.
pub open spec fn alert_le(a: AlertView, b: AlertView) -> bool {
    if rank(a.severity) != rank(b.severity) {
        rank(a.severity) < rank(b.severity)
    } else if a.event != b.event {
        lex_le(a.event, b.event)
    } else {
        lex_le(a.resource, b.resource)
    }
}

/// Executable lexicographic comparison on strings, equal to [`lex_le`].
pub fn str_le(a: &str, b: &str) -> (r: bool)
    ensures
        r == lex_le(a@, b@),
    decreases a@.len(),
{
    let a_len = a.unicode_len();
    let b_len = b.unicode_len();
    if a_len == 0 {
        true
    } else if b_len == 0 {
        false
    } else {
        let ca = a.get_char(0);
        let cb = b.get_char(0);
        if (ca as u32) < (cb as u32) {
            true
        } else if (ca as u32) > (cb as u32) {
            false
        } else {
            let ra = a.substring_char(1, a_len);
            let rb = b.substring_char(1, b_len);
            assert(ra@ =~= a@.drop_first());
            assert(rb@ =~= b@.drop_first());
            str_le(ra, rb)
        }
    }
}

impl Alert {
    /// Executable ordering test, equal to [`alert_le`] on the models.
    pub fn le(&self, other: &Alert) -> (r: bool)
        ensures
            r == alert_le(self@, other@),
    {
        let ra = self.severity.rank_exec();
        let rb = other.severity.rank_exec();
        if ra != rb {
            ra < rb
        } else if !(self.event == other.event) {
            str_le(self.event.as_str(), other.event.as_str())
        } else {
            str_le(self.resource.as_str(), other.resource.as_str())
        }
    }
}

/// The ordering rule as a relation value, for use with vstd's order lemmas.
pub open spec fn alert_order() -> spec_fn(AlertView, AlertView) -> bool {
    |a: AlertView, b: AlertView| alert_le(a, b)
}

/// A sequence of alert models is ordered by urgency: every alert satisfies
/// the ordering rule against every later one.
pub open spec fn urgency_sorted(s: Seq<AlertView>) -> bool {
    sorted_by(s, alert_order())
}

/// The urgency-ordered rearrangement of a sequence of alert models.
pub open spec fn sorted_alerts(s: Seq<AlertView>) -> Seq<AlertView> {
    s.sort_by(alert_order())
}

/// Lexicographic order is total: one of the two directions always holds.
pub proof fn lemma_lex_le_total(a: Seq<char>, b: Seq<char>)
    ensures
        lex_le(a, b) || lex_le(b, a),
    decreases a.len(),
{
    if a.len() != 0 && b.len() != 0 && a[0] == b[0] {
        lemma_lex_le_total(a.drop_first(), b.drop_first());
    }
}

/// Lexicographic order is antisymmetric: sequences ordered both ways are equal.
pub proof fn lemma_lex_le_antisym(a: Seq<char>, b: Seq<char>)
    requires
        lex_le(a, b),
        lex_le(b, a),
    ensures
        a == b,
    decreases a.len(),
{
    if a.len() == 0 {
        assert(b.len() == 0);
        assert(a =~= b);
    } else {
        assert(b.len() != 0);
        assert(a[0] == b[0]);
        lemma_lex_le_antisym(a.drop_first(), b.drop_first());
        assert(a =~= seq![a[0]] + a.drop_first());
        assert(b =~= seq![b[0]] + b.drop_first());
    }
}

/// Lexicographic order is transitive.
pub proof fn lemma_lex_le_trans(a: Seq<char>, b: Seq<char>, c: Seq<char>)
    requires
        lex_le(a, b),
        lex_le(b, c),
    ensures
        lex_le(a, c),
    decreases a.len(),
{
    if a.len() != 0 && b.len() != 0 && c.len() != 0 {
        if a[0] == b[0] && b[0] == c[0] {
            lemma_lex_le_trans(a.drop_first(), b.drop_first(), c.drop_first());
        }
    }
}

/// The alert ordering rule is total: one direction always holds.
pub proof fn lemma_alert_le_total(a: AlertView, b: AlertView)
    ensures
        alert_le(a, b) || alert_le(b, a),
{
    if rank(a.severity) == rank(b.severity) {
        if a.event == b.event {
            lemma_lex_le_total(a.resource, b.resource);
        } else {
            lemma_lex_le_total(a.event, b.event);
        }
    }
}

/// The alert ordering rule is transitive.
pub proof fn lemma_alert_le_trans(a: AlertView, b: AlertView, c: AlertView)
    requires
        alert_le(a, b),
        alert_le(b, c),
    ensures
        alert_le(a, c),
{
    if rank(a.severity) == rank(b.severity) && rank(b.severity) == rank(c.severity) {
        if a.event == b.event && b.event == c.event {
            lemma_lex_le_trans(a.resource, b.resource, c.resource);
        } else if a.event != b.event && b.event != c.event {
            lemma_lex_le_trans(a.event, b.event, c.event);
            if a.event == c.event {
                lemma_lex_le_antisym(a.event, b.event);
            }
        }
    }
}

/// The alert ordering rule is a total order: reflexive, transitive,
/// antisymmetric, and defined in at least one direction for every pair.
pub proof fn lemma_alert_order_total()
    ensures
        total_ordering(alert_order()),
{
    assert forall|a: AlertView| #[trigger] alert_order()(a, a) by {
        lemma_lex_le_total(a.resource, a.resource);
    }
    assert forall|a: AlertView, b: AlertView|
        #[trigger] alert_order()(a, b) && #[trigger] alert_order()(b, a) implies a == b by {
        if rank(a.severity) == rank(b.severity) {
            if a.event == b.event {
                lemma_lex_le_antisym(a.resource, b.resource);
            } else {
                lemma_lex_le_antisym(a.event, b.event);
            }
        }
    }
    assert forall|a: AlertView, b: AlertView, c: AlertView|
        #[trigger] alert_order()(a, b) && #[trigger] alert_order()(b, c) implies alert_order()(
        a,
        c,
    ) by {
        lemma_alert_le_trans(a, b, c);
    }
    assert forall|a: AlertView, b: AlertView| #[trigger] alert_order()(a, b) || #[trigger]
        alert_order()(b, a) by {
        lemma_alert_le_total(a, b);
    }
}

/// Insert one alert into a collection already ordered by urgency, keeping
/// the order; the contents grow by exactly the inserted alert.
fn insert_sorted(out: &mut Vec<Alert>, x: Alert)
    requires
        urgency_sorted(alert_views(old(out)@)),
    ensures
        urgency_sorted(alert_views(final(out)@)),
        alert_views(final(out)@).to_multiset() == alert_views(old(out)@).to_multiset().insert(
            x@,
        ),
{
    broadcast use vstd::seq_lib::group_to_multiset_ensures;

    let ghost before = alert_views(out@);
    let mut k: usize = 0;
    while k < out.len()
        invariant
            urgency_sorted(alert_views(out@)),
            out@ == old(out)@,
            k <= out@.len(),
            forall|m: int| 0 <= m < k ==> alert_le(#[trigger] alert_views(out@)[m], x@),
        ensures
            out@ == old(out)@,
            k <= out@.len(),
            forall|m: int| 0 <= m < k ==> alert_le(#[trigger] alert_views(out@)[m], x@),
            k < out@.len() ==> !alert_le(alert_views(out@)[k as int], x@),
        decreases out@.len() - k,
    {
        if out[k].le(&x) {
            k += 1;
        } else {
            break;
        }
    }
    let ghost kk = k as int;
    proof {
        if kk < before.len() {
            lemma_alert_le_total(x@, before[kk]);
        }
    }
    out.insert(k, x);
    proof {
        let after = alert_views(out@);
        assert(after =~= before.insert(kk, x@));
        assert forall|i: int, j: int| 0 <= i < j < after.len() implies #[trigger] alert_order()(
            after[i],
            after[j],
        ) by {
            if i < kk && j == kk {
                assert(alert_le(before[i], x@));
            } else if i == kk && j > kk {
                if j - 1 > kk {
                    assert(alert_order()(before[kk], before[j - 1]));
                    lemma_alert_le_trans(x@, before[kk], before[j - 1]);
                }
                assert(alert_le(x@, before[j - 1]));
            } else if i < kk && j > kk {
                assert(alert_order()(before[i], before[j - 1]));
            } else if j < kk {
                assert(alert_order()(before[i], before[j]));
            } else {
                assert(kk < i);
                assert(alert_order()(before[i - 1], before[j - 1]));
            }
        }
        assert(before.insert(kk, x@) =~= before.take(kk) + seq![x@] + before.skip(kk));
        vstd::seq_lib::lemma_multiset_commutative(before.take(kk) + seq![x@], before.skip(kk));
        vstd::seq_lib::lemma_multiset_commutative(before.take(kk), seq![x@]);
        assert(seq![x@].to_multiset() =~= Multiset::empty().insert(x@)) by {
            assert(seq![x@] =~= Seq::empty().push(x@));
        }
        assert(before =~= before.take(kk) + before.skip(kk));
        vstd::seq_lib::lemma_multiset_commutative(before.take(kk), before.skip(kk));
        assert(after.to_multiset() =~= before.to_multiset().insert(x@));
    }
}

/// Sort a collection of alerts by urgency: most urgent first, ties broken
/// by event and then resource. The result is ordered and holds exactly the
/// alerts that came in.
pub fn sort_alerts(v: &mut Vec<Alert>)
    ensures
        urgency_sorted(alert_views(final(v)@)),
        alert_views(final(v)@).to_multiset() == alert_views(old(v)@).to_multiset(),
        alert_views(final(v)@) == sorted_alerts(alert_views(old(v)@)),
{
    broadcast use vstd::seq_lib::group_to_multiset_ensures;

    let ghost total = alert_views(old(v)@);
    let mut out: Vec<Alert> = Vec::new();
    proof {
        assert(alert_views(out@) =~= Seq::empty());
        assert(alert_views(v@) =~= total);
        vstd::seq_lib::lemma_multiset_commutative(alert_views(out@), alert_views(v@));
        assert(alert_views(out@) + alert_views(v@) =~= alert_views(v@));
    }
    while v.len() > 0
        invariant
            urgency_sorted(alert_views(out@)),
            alert_views(out@).to_multiset().add(alert_views(v@).to_multiset())
                == total.to_multiset(),
        decreases v@.len(),
    {
        let ghost vs = alert_views(v@);
        let x = v.remove(0);
        proof {
            assert(alert_views(v@) =~= vs.remove(0));
            vstd::seq_lib::to_multiset_remove(vs, 0);
            vstd::seq_lib::to_multiset_contains(vs, vs[0]);
            assert(vs.contains(vs[0]));
        }
        insert_sorted(&mut out, x);
        proof {
            broadcast use vstd::multiset::group_multiset_axioms;

            assert(alert_views(out@).to_multiset().add(alert_views(v@).to_multiset())
                =~= total.to_multiset());
        }
    }
    proof {
        assert(alert_views(v@) =~= Seq::empty());
        assert(alert_views(v@).to_multiset() =~= Seq::<AlertView>::empty().to_multiset());
        broadcast use vstd::multiset::group_multiset_axioms;
    }
    *v = out;
    proof {
        broadcast use vstd::multiset::group_multiset_axioms;

        lemma_alert_order_total();
        total.lemma_sort_by_ensures(alert_order());
        assert(alert_views(v@).to_multiset() == total.to_multiset());
        lemma_sorted_unique(alert_views(v@), total.sort_by(alert_order()), alert_order());
    }
}

/// Law: sorting puts higher urgency first. In an urgency-ordered
/// collection, an alert of strictly more urgent severity stands strictly
/// before one of less urgent severity, whatever their event and resource
/// strings are.
pub proof fn lemma_more_urgent_first(s: Seq<AlertView>, i: int, j: int)
    requires
        urgency_sorted(s),
        0 <= i < s.len(),
        0 <= j < s.len(),
        rank(s[i].severity) < rank(s[j].severity),
    ensures
        i < j,
{
    if j < i {
        assert(alert_order()(s[j], s[i]));
    }
}

/// Law: sorting is idempotent. Two urgency-ordered sequences holding the
/// same alerts are identical; in particular, re-sorting an already sorted
/// collection reproduces it exactly.
pub proof fn lemma_sort_idempotent(s: Seq<AlertView>, t: Seq<AlertView>)
    requires
        urgency_sorted(s),
        urgency_sorted(t),
        s.to_multiset() == t.to_multiset(),
    ensures
        s == t,
{
    lemma_alert_order_total();
    lemma_sorted_unique(s, t, alert_order());
}

} // verus!
