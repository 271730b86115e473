//! What the fights share: building attacks, keeping those in a time window,
//! ordering them by time and collecting them into a lookup.
use vstd::prelude::*;
use itertools::Itertools;
use crate::domain::{Attack, AttackView, AttackTimer, AttackType};
use crate::lookup::{Lookup, LookupKey, spec_collect, has_key, key_index, spec_put, keys_unique, lemma_put_unique, lemma_key_index_unique};

verus! {

/// The time of an attack's view since the pull.
pub open spec fn view_time(v: AttackView) -> int {
    v.timer.spec_static_timer()
}

/// Inserts `a` after every element whose time is not later than `a`'s.
pub open spec fn insert_by_time<A>(s: Seq<A>, a: A, t: spec_fn(A) -> int) -> Seq<A>
    decreases s.len(),
{
    if s.len() == 0 || t(s.last()) <= t(a) {
        s.push(a)
    } else {
        insert_by_time(s.drop_last(), a, t).push(s.last())
    }
}

/// The stable ordering of `s` by `t`: insertion sort.
pub open spec fn sort_by_time<A>(s: Seq<A>, t: spec_fn(A) -> int) -> Seq<A>
    decreases s.len(),
{
    if s.len() == 0 {
        s
    } else {
        insert_by_time(sort_by_time(s.drop_last(), t), s.last(), t)
    }
}

pub open spec fn attack_time_fn() -> spec_fn(Attack) -> int {
    |a: Attack| a.time()
}

pub open spec fn view_time_fn() -> spec_fn(AttackView) -> int {
    |v: AttackView| view_time(v)
}

pub open spec fn attack_view_fn() -> spec_fn(Attack) -> AttackView {
    |a: Attack| a@
}

/// The views of a list of attacks.
pub open spec fn views(s: Seq<Attack>) -> Seq<AttackView> {
    s.map_values(attack_view_fn())
}

/// `s` is ordered by time.
pub open spec fn time_ordered<A>(s: Seq<A>, t: spec_fn(A) -> int) -> bool {
    forall|i: int, j: int| 0 <= i <= j < s.len() ==> t(#[trigger] s[i]) <= t(#[trigger] s[j])
}

/// itertools' `sorted_by_key`, keyed by an attack's time: a stable sort (the items are
/// put into a `Vec` and ordered by std's stable `sort_by_key`). The order is claimed
/// as that of insertion sort, the one stable ordering there is.
#[verifier::external_body]
pub(crate) fn sorted_by_time(attacks: Vec<Attack>) -> (r: Vec<Attack>)
    ensures
        r@ == sort_by_time(attacks@, attack_time_fn()),
{
    attacks.into_iter().sorted_by_key(|a| a.static_timer()).collect()
}

/// Putting attack views by uuid, as a lookup puts attacks.
pub open spec fn view_has_uuid(s: Seq<AttackView>, k: u128) -> bool {
    exists|i: int| 0 <= i < s.len() && #[trigger] s[i].uuid == k
}

pub open spec fn view_uuid_index(s: Seq<AttackView>, k: u128) -> int {
    choose|i: int| 0 <= i < s.len() && #[trigger] s[i].uuid == k
}

pub open spec fn put_view(s: Seq<AttackView>, v: AttackView) -> Seq<AttackView> {
    if view_has_uuid(s, v.uuid) {
        s.update(view_uuid_index(s, v.uuid), v)
    } else {
        s.push(v)
    }
}

pub open spec fn collect_views(s: Seq<AttackView>) -> Seq<AttackView>
    decreases s.len(),
{
    if s.len() == 0 {
        Seq::empty()
    } else {
        put_view(collect_views(s.drop_last()), s.last())
    }
}

pub proof fn lemma_collect_views(s: Seq<Attack>)
    ensures
        views(spec_collect(s)) == collect_views(views(s)),
        keys_unique(spec_collect(s)),
    decreases s.len(),
{
    if s.len() > 0 {
        let d = s.drop_last();
        let x = s.last();
        lemma_collect_views(d);
        let c = spec_collect(d);
        let cv = views(c);
        assert(views(s).drop_last() =~= views(d));
        assert(views(s).last() == x@);
        lemma_put_unique(c, x);
        if has_key(c, x.uuid) {
            let i = key_index(c, x.uuid);
            assert(cv[i].uuid == x.uuid);
            assert(view_has_uuid(cv, x.uuid));
            let j = view_uuid_index(cv, x.uuid);
            assert(c[j].uuid == x.uuid);
            lemma_key_index_unique(c, j);
            assert(i == j);
            assert(views(c.update(i, x)) =~= cv.update(j, x@));
        } else {
            assert(!view_has_uuid(cv, x.uuid)) by {
                if view_has_uuid(cv, x.uuid) {
                    let j = view_uuid_index(cv, x.uuid);
                    assert(c[j].uuid == x.uuid);
                    assert(c[j].key() == x.uuid);
                    assert(has_key(c, x.uuid));
                }
            }
            assert(views(c.push(x)) =~= cv.push(x@));
        }
    }
}

pub proof fn lemma_insert_views(s: Seq<Attack>, a: Attack)
    ensures
        views(insert_by_time(s, a, attack_time_fn())) == insert_by_time(views(s), a@, view_time_fn()),
    decreases s.len(),
{
    assert(views(s.push(a)) =~= views(s).push(a@));
    if s.len() > 0 {
        assert(views(s).last() == s.last()@);
        assert(views(s).drop_last() =~= views(s.drop_last()));
        lemma_insert_views(s.drop_last(), a);
        assert(views(insert_by_time(s.drop_last(), a, attack_time_fn()).push(s.last())) =~= views(
            insert_by_time(s.drop_last(), a, attack_time_fn()),
        ).push(s.last()@));
    }
}

pub proof fn lemma_sort_views(s: Seq<Attack>)
    ensures
        views(sort_by_time(s, attack_time_fn())) == sort_by_time(views(s), view_time_fn()),
    decreases s.len(),
{
    if s.len() > 0 {
        lemma_sort_views(s.drop_last());
        assert(views(s).drop_last() =~= views(s.drop_last()));
        assert(views(s).last() == s.last()@);
        lemma_insert_views(sort_by_time(s.drop_last(), attack_time_fn()), s.last());
    }
}

pub proof fn lemma_insert_ordered<A>(s: Seq<A>, a: A, t: spec_fn(A) -> int)
    requires
        time_ordered(s, t),
    ensures
        time_ordered(insert_by_time(s, a, t), t),
        insert_by_time(s, a, t).len() == s.len() + 1,
        insert_by_time(s, a, t).to_multiset() == s.to_multiset().insert(a),
        forall|i: int| 0 <= i < insert_by_time(s, a, t).len() ==> (#[trigger] insert_by_time(s, a, t)[i] == a || exists|j: int| 0 <= j < s.len() && s[j] == insert_by_time(s, a, t)[i]),
    decreases s.len(),
{
    broadcast use vstd::seq_lib::group_to_multiset_ensures;
    let r = insert_by_time(s, a, t);
    if s.len() == 0 || t(s.last()) <= t(a) {
        assert forall|i: int, j: int| 0 <= i <= j < r.len() implies t(#[trigger] r[i]) <= t(#[trigger] r[j]) by {
            if j == s.len() {
                if i < s.len() {
                    assert(t(s[i]) <= t(s[s.len() - 1]));
                }
            }
        }
        assert forall|i: int| 0 <= i < r.len() implies (#[trigger] r[i] == a || exists|j: int| 0 <= j < s.len() && s[j] == r[i]) by {
            if i < s.len() {
                assert(s[i] == r[i]);
            }
        }
    } else {
        let d = s.drop_last();
        assert(time_ordered(d, t)) by {
            assert forall|i: int, j: int| 0 <= i <= j < d.len() implies t(#[trigger] d[i]) <= t(#[trigger] d[j]) by {
                assert(d[i] == s[i]);
                assert(d[j] == s[j]);
            }
        }
        lemma_insert_ordered(d, a, t);
        let r0 = insert_by_time(d, a, t);
        assert(s =~= d.push(s.last()));
        assert forall|i: int, j: int| 0 <= i <= j < r.len() implies t(#[trigger] r[i]) <= t(#[trigger] r[j]) by {
            if j == r.len() - 1 && i < j {
                assert(r[i] == r0[i]);
                if r0[i] == a {
                } else {
                    let k = choose|k: int| 0 <= k < d.len() && d[k] == r0[i];
                    assert(d[k] == s[k]);
                    assert(t(s[k]) <= t(s[s.len() - 1]));
                }
            } else if j < r.len() - 1 {
                assert(r[i] == r0[i]);
                assert(r[j] == r0[j]);
            }
        }
        assert forall|i: int| 0 <= i < r.len() implies (#[trigger] r[i] == a || exists|j: int| 0 <= j < s.len() && s[j] == r[i]) by {
            if i == r.len() - 1 {
                assert(s[s.len() - 1] == r[i]);
            } else {
                assert(r[i] == r0[i]);
                if r0[i] != a {
                    let k = choose|k: int| 0 <= k < d.len() && d[k] == r0[i];
                    assert(s[k] == d[k]);
                }
            }
        }
        assert(r.to_multiset() == r0.to_multiset().insert(s.last()));
        assert(s.to_multiset() == d.to_multiset().insert(s.last()));
        assert(r.to_multiset() =~= s.to_multiset().insert(a));
    }
}

/// The stable ordering is ordered by time and holds the same items as before.
pub proof fn lemma_sort_ordered<A>(s: Seq<A>, t: spec_fn(A) -> int)
    ensures
        time_ordered(sort_by_time(s, t), t),
        sort_by_time(s, t).len() == s.len(),
        sort_by_time(s, t).to_multiset() == s.to_multiset(),
    decreases s.len(),
{
    broadcast use vstd::seq_lib::group_to_multiset_ensures;
    if s.len() > 0 {
        lemma_sort_ordered(s.drop_last(), t);
        lemma_insert_ordered(sort_by_time(s.drop_last(), t), s.last(), t);
        assert(s =~= s.drop_last().push(s.last()));
    }
}

/// An attack with the given fields, its name taken from `name`.
pub fn make_attack(uuid: u128, name: String, power: u64, attack_type: AttackType, timer: AttackTimer) -> (a: Attack)
    ensures
        a@ == (AttackView { uuid, name: name@, power, attack_type, timer }),
{
    Attack { uuid, name, power, attack_type, timer }
}

/// The attack's time lies within the given bounds (each bound is included).
pub open spec fn within(t: int, lo: Option<i128>, hi: Option<i128>) -> bool {
    &&& (lo matches Some(l) ==> l <= t)
    &&& (hi matches Some(h) ==> t <= h)
}

pub open spec fn window_pred(lo: Option<i128>, hi: Option<i128>) -> spec_fn(Attack) -> bool {
    |a: Attack| within(a.time(), lo, hi)
}

pub open spec fn window_view_pred(lo: Option<i128>, hi: Option<i128>) -> spec_fn(AttackView) -> bool {
    |v: AttackView| within(view_time(v), lo, hi)
}

/// The attacks of `v` whose times lie within the bounds, in their order.
pub fn keep_within(v: Vec<Attack>, lo: Option<i128>, hi: Option<i128>) -> (r: Vec<Attack>)
    ensures
        r@ == v@.filter(window_pred(lo, hi)),
        views(r@) == views(v@).filter(window_view_pred(lo, hi)),
{
    let mut r: Vec<Attack> = Vec::new();
    let mut i: usize = 0;
    let ghost p = window_pred(lo, hi);
    while i < v.len()
        invariant
            i <= v@.len(),
            p == window_pred(lo, hi),
            r@ == v@.subrange(0, i as int).filter(p),
        decreases v@.len() - i,
    {
        let a = &v[i];
        let t = a.static_timer();
        let keep = match (lo, hi) {
            (Some(l), Some(h)) => l <= t && t <= h,
            (Some(l), None) => l <= t,
            (None, Some(h)) => t <= h,
            (None, None) => true,
        };
        proof {
            reveal(Seq::filter);
            assert(v@.subrange(0, i + 1).drop_last() =~= v@.subrange(0, i as int));
            assert(v@.subrange(0, i + 1).last() == v@[i as int]);
            assert(keep == p(v@[i as int]));
        }
        if keep {
            r.push(a.duplicate());
        }
        i = i + 1;
    }
    assert(v@.subrange(0, v@.len() as int) =~= v@);
    proof {
        vstd::seq_lib::lemma_filter_view_commute(v@, window_pred(lo, hi), window_view_pred(lo, hi));
        assert(views(r@) == v@.filter(window_pred(lo, hi)).map_values(|x: Attack| x.view()));
        assert(views(v@) =~= v@.map_values(|x: Attack| x.view()));
        assert(views(r@) =~= r@.map_values(|x: Attack| x.view()));
    }
    r
}

/// The attacks that do not come before the start of their own phase.
pub open spec fn after_phase_start_pred() -> spec_fn(Attack) -> bool {
    |a: Attack| a.time() >= opt_time_int(a.timer.phase_start)
}

pub open spec fn after_phase_start_view_pred() -> spec_fn(AttackView) -> bool {
    |v: AttackView| view_time(v) >= opt_time_int(v.timer.phase_start)
}

pub open spec fn opt_time_int(t: Option<i64>) -> int {
    crate::domain::opt_time(t)
}

pub fn keep_after_phase_start(v: Vec<Attack>) -> (r: Vec<Attack>)
    ensures
        r@ == v@.filter(after_phase_start_pred()),
        views(r@) == views(v@).filter(after_phase_start_view_pred()),
{
    let mut r: Vec<Attack> = Vec::new();
    let mut i: usize = 0;
    let ghost p = after_phase_start_pred();
    while i < v.len()
        invariant
            i <= v@.len(),
            p == after_phase_start_pred(),
            r@ == v@.subrange(0, i as int).filter(p),
        decreases v@.len() - i,
    {
        let a = &v[i];
        let start: i128 = match a.timer.phase_start {
            Some(x) => x as i128,
            None => 0,
        };
        let keep = a.static_timer() >= start;
        proof {
            reveal(Seq::filter);
            assert(v@.subrange(0, i + 1).drop_last() =~= v@.subrange(0, i as int));
            assert(v@.subrange(0, i + 1).last() == v@[i as int]);
            assert(keep == p(v@[i as int]));
        }
        if keep {
            r.push(a.duplicate());
        }
        i = i + 1;
    }
    assert(v@.subrange(0, v@.len() as int) =~= v@);
    proof {
        vstd::seq_lib::lemma_filter_view_commute(v@, after_phase_start_pred(), after_phase_start_view_pred());
        assert(views(v@) =~= v@.map_values(|x: Attack| x.view()));
        assert(views(r@) =~= r@.map_values(|x: Attack| x.view()));
    }
    r
}

/// Orders the attacks by time (keeping the order of attacks at the same time) and
/// collects them into a lookup.
pub fn into_timeline(v: Vec<Attack>) -> (r: Lookup<Attack>)
    ensures
        r.wf(),
        r@ == spec_collect(sort_by_time(v@, attack_time_fn())),
        views(r@) == collect_views(sort_by_time(views(v@), view_time_fn())),
{
    let sorted = sorted_by_time(v);
    proof {
        lemma_sort_views(v@);
        lemma_collect_views(sorted@);
    }
    Lookup::from_vec(sorted)
}

/// A timeline whose attacks have distinct uuids lists every attack, ordered by time.
pub proof fn law_timeline_ordered(s: Seq<Attack>)
    requires
        keys_unique(s),
    ensures
        spec_collect(sort_by_time(s, attack_time_fn())) == sort_by_time(s, attack_time_fn()),
        time_ordered(spec_collect(sort_by_time(s, attack_time_fn())), attack_time_fn()),
        spec_collect(sort_by_time(s, attack_time_fn())).to_multiset() == s.to_multiset(),
{
    let t = attack_time_fn();
    lemma_sort_ordered(s, t);
    let r = sort_by_time(s, t);
    assert(keys_unique(r)) by {
        assert forall|i: int, j: int| 0 <= i < r.len() && 0 <= j < r.len() && i != j implies #[trigger] r[i].key() != #[trigger] r[j].key() by {
            broadcast use vstd::seq_lib::group_to_multiset_ensures;
            // two positions of r holding items with one key would make that key occur twice in s
            if r[i].key() == r[j].key() {
                assert(r.to_multiset().count(r[i]) > 0);
                assert(s.to_multiset().count(r[i]) > 0);
                assert(r.to_multiset().count(r[j]) > 0);
                assert(s.to_multiset().count(r[j]) > 0);
                assert(s.contains(r[i]));
                assert(s.contains(r[j]));
                let a = choose|a: int| 0 <= a < s.len() && s[a] == r[i];
                let b = choose|b: int| 0 <= b < s.len() && s[b] == r[j];
                if a != b {
                    assert(s[a].key() != s[b].key());
                } else {
                    assert(r[i] == r[j]);
                    lemma_count_two(r, i, j);
                    assert(s.to_multiset().count(r[i]) >= 2);
                    lemma_count_one(s, a);
                }
            }
        }
    }
    crate::lookup::lemma_collect_of_unique(r);
}

/// Two positions holding one item make it count at least twice.
proof fn lemma_count_two<A>(s: Seq<A>, i: int, j: int)
    requires
        0 <= i < s.len(),
        0 <= j < s.len(),
        i != j,
        s[i] == s[j],
    ensures
        s.to_multiset().count(s[i]) >= 2,
    decreases s.len(),
{
    broadcast use vstd::seq_lib::group_to_multiset_ensures;
    let d = s.drop_last();
    assert(s =~= d.push(s.last()));
    if i == s.len() - 1 {
        assert(d[j] == s[j]);
        assert(d.contains(s[i]));
    } else if j == s.len() - 1 {
        assert(d[i] == s[i]);
        assert(d.contains(s[i]));
    } else {
        assert(d[i] == s[i]);
        assert(d[j] == s[j]);
        lemma_count_two(d, i, j);
    }
}

/// With distinct keys, an item occurs once.
proof fn lemma_count_one<T: crate::lookup::LookupKey>(s: Seq<T>, i: int)
    requires
        keys_unique(s),
        0 <= i < s.len(),
    ensures
        s.to_multiset().count(s[i]) <= 1,
    decreases s.len(),
{
    broadcast use vstd::seq_lib::group_to_multiset_ensures;
    let d = s.drop_last();
    assert(s =~= d.push(s.last()));
    assert(keys_unique(d)) by {
        assert forall|a: int, b: int| 0 <= a < d.len() && 0 <= b < d.len() && a != b implies #[trigger] d[a].key() != #[trigger] d[b].key() by {
            assert(d[a] == s[a]);
            assert(d[b] == s[b]);
        }
    }
    if i == s.len() - 1 {
        assert(!d.contains(s[i])) by {
            if d.contains(s[i]) {
                let k = choose|k: int| 0 <= k < d.len() && d[k] == s[i];
                assert(s[k] == d[k]);
                assert(s[k].key() == s[i].key());
            }
        }
        assert(d.to_multiset().count(s[i]) == 0);
    } else {
        assert(d[i] == s[i]);
        lemma_count_one(d, i);
        assert(s[s.len() - 1].key() != s[i].key());
        assert(s.last() != s[i]);
    }
}

/// The latest time, in milliseconds, that a fight's parameters may name: sums of two
/// such times and a few minutes stay within `i64`.
pub const MAX_FIGHT_TIME: i64 = 0x3fff_ffff_ffff_ffff;

/// A power of one, counted in thousandths.
pub const POWER_ONE: u64 = 1000;

/// A timer that only counts from the pull.
pub open spec fn simple_timer(dynamic: i64) -> AttackTimer {
    AttackTimer { dynamic_timer: Some(dynamic), phase_start: None, phase_end: None, dynamic_trigger_cleu_event: None }
}

pub open spec fn on_pull_view(uuid: u128) -> AttackView {
    AttackView { uuid, name: "On Pull"@, power: 0, attack_type: AttackType::Generic, timer: simple_timer(3000) }
}

/// The marker that every fight starts with, three seconds into the pull.
pub fn on_pull(uuid: u128) -> (a: Attack)
    ensures
        a@ == on_pull_view(uuid),
{
    make_attack(uuid, crate::text::string_of("On Pull"), 0, AttackType::Generic, AttackTimer::timed(3000))
}


/// A timer input's limits, in seconds: the time must be after `min` and before `max`.
#[derive(PartialEq, Eq, Structural, Clone, Copy, Debug)]
pub struct TimerBounds {
    pub min: Option<u64>,
    pub max: Option<u64>,
}

/// The timer inputs accept times under 100 minutes.
pub const MAX_TIMER_SECONDS: u64 = 6000;

/// Seconds as milliseconds.
pub fn seconds_to_ms(s: u64) -> (ms: i64)
    requires
        s < MAX_TIMER_SECONDS,
    ensures
        ms == s * 1000,
        0 <= ms <= MAX_FIGHT_TIME,
{
    (s * 1000) as i64
}


/// Putting a view keeps every uuid there was and adds the view's own.
pub proof fn lemma_put_view_uuid(c: Seq<AttackView>, v: AttackView, u: u128)
    ensures
        view_has_uuid(put_view(c, v), u) <==> (view_has_uuid(c, u) || v.uuid == u),
{
    if view_has_uuid(c, v.uuid) {
        let k = view_uuid_index(c, v.uuid);
        let r = c.update(k, v);
        if view_has_uuid(c, u) {
            let j = choose|j: int| 0 <= j < c.len() && #[trigger] c[j].uuid == u;
            if j == k {
                assert(r[k].uuid == u);
            } else {
                assert(r[j].uuid == u);
            }
        }
        if view_has_uuid(r, u) {
            let j = choose|j: int| 0 <= j < r.len() && #[trigger] r[j].uuid == u;
            if j != k {
                assert(c[j].uuid == u);
            }
        }
        if v.uuid == u {
            assert(r[k].uuid == u);
        }
    } else {
        let r = c.push(v);
        if view_has_uuid(c, u) {
            let j = choose|j: int| 0 <= j < c.len() && #[trigger] c[j].uuid == u;
            assert(r[j].uuid == u);
        }
        if view_has_uuid(r, u) {
            let j = choose|j: int| 0 <= j < r.len() && #[trigger] r[j].uuid == u;
            if j < c.len() {
                assert(c[j].uuid == u);
            }
        }
        assert(r[c.len() as int].uuid == v.uuid);
    }
}

/// Collecting views keeps exactly the uuids there were.
pub proof fn lemma_collect_views_uuid(s: Seq<AttackView>, u: u128)
    ensures
        view_has_uuid(collect_views(s), u) <==> view_has_uuid(s, u),
    decreases s.len(),
{
    if s.len() > 0 {
        lemma_collect_views_uuid(s.drop_last(), u);
        lemma_put_view_uuid(collect_views(s.drop_last()), s.last(), u);
        lemma_concat_uuid(s.drop_last(), seq![s.last()], u);
        assert(s.drop_last() + seq![s.last()] =~= s);
        if s.last().uuid == u {
            assert(seq![s.last()][0].uuid == u);
        }
        if view_has_uuid(seq![s.last()], u) {
            let j = choose|j: int| 0 <= j < 1 && #[trigger] seq![s.last()][j].uuid == u;
            assert(j == 0);
        }
    }
}

/// A uuid is in two views joined when it is in one of them.
pub proof fn lemma_concat_uuid(a: Seq<AttackView>, b: Seq<AttackView>, u: u128)
    ensures
        view_has_uuid(a + b, u) <==> (view_has_uuid(a, u) || view_has_uuid(b, u)),
{
    let r = a + b;
    if view_has_uuid(r, u) {
        let j = choose|j: int| 0 <= j < r.len() && #[trigger] r[j].uuid == u;
        if j < a.len() {
            assert(a[j].uuid == u);
        } else {
            assert(b[j - a.len()].uuid == u);
        }
    }
    if view_has_uuid(a, u) {
        let j = choose|j: int| 0 <= j < a.len() && #[trigger] a[j].uuid == u;
        assert(r[j].uuid == u);
    }
    if view_has_uuid(b, u) {
        let j = choose|j: int| 0 <= j < b.len() && #[trigger] b[j].uuid == u;
        assert(r[j + a.len()].uuid == u);
    }
}

/// Ordering views by time keeps exactly the uuids there were.
pub proof fn lemma_sort_uuid(s: Seq<AttackView>, u: u128)
    ensures
        view_has_uuid(sort_by_time(s, view_time_fn()), u) <==> view_has_uuid(s, u),
{
    broadcast use vstd::seq_lib::group_to_multiset_ensures;
    let r = sort_by_time(s, view_time_fn());
    lemma_sort_ordered(s, view_time_fn());
    if view_has_uuid(s, u) {
        let j = choose|j: int| 0 <= j < s.len() && #[trigger] s[j].uuid == u;
        assert(s.contains(s[j]));
        assert(r.to_multiset().count(s[j]) > 0);
        assert(r.contains(s[j]));
        let k = choose|k: int| 0 <= k < r.len() && r[k] == s[j];
        assert(r[k].uuid == u);
    }
    if view_has_uuid(r, u) {
        let j = choose|j: int| 0 <= j < r.len() && #[trigger] r[j].uuid == u;
        assert(r.contains(r[j]));
        assert(s.to_multiset().count(r[j]) > 0);
        assert(s.contains(r[j]));
        let k = choose|k: int| 0 <= k < s.len() && s[k] == r[j];
        assert(s[k].uuid == u);
    }
}

/// A uuid is among the kept views when a view with it passes the filter.
pub proof fn lemma_filter_uuid(s: Seq<AttackView>, p: spec_fn(AttackView) -> bool, u: u128)
    ensures
        view_has_uuid(s.filter(p), u) <==> exists|i: int| 0 <= i < s.len() && #[trigger] s[i].uuid == u && p(s[i]),
    decreases s.len(),
{
    reveal(Seq::filter);
    if s.len() > 0 {
        let d = s.drop_last();
        lemma_filter_uuid(d, p, u);
        let f = d.filter(p);
        if p(s.last()) {
            lemma_concat_uuid(f, seq![s.last()], u);
            assert(f + seq![s.last()] =~= f.push(s.last()));
            if view_has_uuid(seq![s.last()], u) {
                let j = choose|j: int| 0 <= j < 1 && #[trigger] seq![s.last()][j].uuid == u;
                assert(j == 0);
                assert(s[s.len() - 1].uuid == u);
            }
            if s.last().uuid == u {
                assert(seq![s.last()][0].uuid == u);
            }
        }
        if exists|i: int| 0 <= i < s.len() && #[trigger] s[i].uuid == u && p(s[i]) {
            let i = choose|i: int| 0 <= i < s.len() && #[trigger] s[i].uuid == u && p(s[i]);
            if i < d.len() {
                assert(d[i].uuid == u);
            }
        }
        if exists|i: int| 0 <= i < d.len() && #[trigger] d[i].uuid == u && p(d[i]) {
            let i = choose|i: int| 0 <= i < d.len() && #[trigger] d[i].uuid == u && p(d[i]);
            assert(s[i].uuid == u);
        }
    }
}

/// Filtering twice is filtering by both conditions.
pub proof fn lemma_filter_filter<A>(s: Seq<A>, p: spec_fn(A) -> bool, q: spec_fn(A) -> bool)
    ensures
        s.filter(p).filter(q) == s.filter(|x: A| p(x) && q(x)),
    decreases s.len(),
{
    reveal(Seq::filter);
    if s.len() > 0 {
        lemma_filter_filter(s.drop_last(), p, q);
        let f = s.drop_last().filter(p);
        if p(s.last()) {
            assert(f.push(s.last()).drop_last() =~= f);
            assert(f.push(s.last()).last() == s.last());
        }
    }
}

/// Every view that collecting keeps was one of the views collected.
pub proof fn lemma_collect_views_members(s: Seq<AttackView>)
    ensures
        forall|i: int| 0 <= i < collect_views(s).len() ==> s.contains(#[trigger] collect_views(s)[i]),
    decreases s.len(),
{
    if s.len() > 0 {
        let d = s.drop_last();
        lemma_collect_views_members(d);
        let c = collect_views(d);
        let r = collect_views(s);
        assert forall|i: int| 0 <= i < r.len() implies s.contains(#[trigger] r[i]) by {
            if r[i] == s.last() {
                assert(s[s.len() - 1] == s.last());
            } else {
                assert(r[i] == c[i]);
                assert(d.contains(c[i]));
                let k = choose|k: int| 0 <= k < d.len() && d[k] == c[i];
                assert(s[k] == d[k]);
            }
        }
    }
}

/// Every view of the ordered views was one of the views ordered.
pub proof fn lemma_sort_members(s: Seq<AttackView>)
    ensures
        forall|i: int| 0 <= i < sort_by_time(s, view_time_fn()).len() ==> s.contains(#[trigger] sort_by_time(s, view_time_fn())[i]),
{
    broadcast use vstd::seq_lib::group_to_multiset_ensures;
    let r = sort_by_time(s, view_time_fn());
    lemma_sort_ordered(s, view_time_fn());
    assert forall|i: int| 0 <= i < r.len() implies s.contains(#[trigger] r[i]) by {
        assert(r.contains(r[i]));
        assert(s.to_multiset().count(r[i]) > 0);
    }
}

/// Every kept element was an element, and passes the filter.
pub proof fn lemma_filter_members<A>(s: Seq<A>, p: spec_fn(A) -> bool)
    ensures
        forall|i: int| 0 <= i < s.filter(p).len() ==> s.contains(#[trigger] s.filter(p)[i]) && p(s.filter(p)[i]),
    decreases s.len(),
{
    reveal(Seq::filter);
    if s.len() > 0 {
        let d = s.drop_last();
        lemma_filter_members(d, p);
        let f = d.filter(p);
        let r = s.filter(p);
        assert forall|i: int| 0 <= i < r.len() implies s.contains(#[trigger] r[i]) && p(r[i]) by {
            if i < f.len() {
                assert(r[i] == f[i]);
                let k = choose|k: int| 0 <= k < d.len() && d[k] == f[i];
                assert(s[k] == d[k]);
            } else {
                assert(r[i] == s.last());
                assert(s[s.len() - 1] == s.last());
            }
        }
    }
}

/// A view that no other view collected shares a uuid with is kept.
pub proof fn lemma_collect_views_keeps(s: Seq<AttackView>, x: AttackView)
    requires
        s.contains(x),
        forall|i: int| 0 <= i < s.len() && #[trigger] s[i].uuid == x.uuid ==> s[i] == x,
    ensures
        collect_views(s).contains(x),
    decreases s.len(),
{
    let d = s.drop_last();
    let l = s.last();
    let c = collect_views(d);
    let r = collect_views(s);
    if l == x {
        if view_has_uuid(c, x.uuid) {
            let k = view_uuid_index(c, x.uuid);
            assert(r[k] == x);
        } else {
            assert(r[c.len() as int] == x);
        }
    } else {
        assert(l.uuid != x.uuid) by {
            if l.uuid == x.uuid {
                assert(s[s.len() - 1] == l);
            }
        }
        let m = choose|m: int| 0 <= m < s.len() && s[m] == x;
        assert(m < s.len() - 1);
        assert(d[m] == x);
        assert forall|i: int| 0 <= i < d.len() && #[trigger] d[i].uuid == x.uuid implies d[i] == x by {
            assert(s[i] == d[i]);
        }
        lemma_collect_views_keeps(d, x);
        let k = choose|k: int| 0 <= k < c.len() && c[k] == x;
        if view_has_uuid(c, l.uuid) {
            let j = view_uuid_index(c, l.uuid);
            assert(c[j].uuid == l.uuid);
            assert(j != k);
            assert(r[k] == x);
        } else {
            assert(r[k] == x);
        }
    }
}
} // verus!
