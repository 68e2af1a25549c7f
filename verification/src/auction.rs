//! The per-slot auction: a time-boxed collector with a sealed cutoff, a
//! deterministic ranker ordering bundles by tip (descending) with the bundle
//! id as tie-break, and a top-K selector. An in-memory variant keyed on tip
//! alone, for ad-hoc re-runs, lives here too.

use vstd::prelude::*;
use vstd::seq_lib::lemma_multiset_commutative;

use crate::bundle::Bundle;
use crate::bundle::BundleError;
use crate::bundle::BundleView;
use crate::bundle::sum_tips;
use crate::bundle::lemma_sum_tips_nonneg;
use crate::bundle::lemma_sum_tips_take_le;
use crate::platform::instant_now;
use crate::platform::millis_since;
use crate::simulator::SolanaRpcClient;
use crate::simulator::TransactionSimulator;

verus! {

/// The auction's ranking order: a bundle comes first when its tip is higher,
/// or, on equal tips, when its id is lower. Over bundles with distinct ids
/// this is a total order, which is what makes the ranking deterministic.
pub open spec fn priority_leq(a: BundleView, b: BundleView) -> bool {
    a.tip_lamports > b.tip_lamports || (a.tip_lamports == b.tip_lamports && a.id <= b.id)
}

/// Ranked order: every earlier bundle ranks at or above every later one.
pub open spec fn priority_sorted(s: Seq<BundleView>) -> bool {
    forall|i: int, j: int| 0 <= i < j < s.len() ==> priority_leq(s[i], s[j])
}

/// No two bundles share an id.
pub open spec fn distinct_ids(s: Seq<BundleView>) -> bool {
    forall|i: int, j: int| 0 <= i < j < s.len() ==> s[i].id != s[j].id
}

/// The bundles a vector holds, as their models.
pub open spec fn views_of(s: Seq<Bundle>) -> Seq<BundleView> {
    s.map_values(|b: Bundle| b@)
}

/// Inserting an element anywhere in a sequence adds exactly that element to
/// its multiset.
proof fn lemma_insert_to_multiset(s: Seq<BundleView>, i: int, v: BundleView)
    requires
        0 <= i <= s.len(),
    ensures
        s.insert(i, v).to_multiset() == s.to_multiset().insert(v),
{
    broadcast use vstd::seq_lib::group_to_multiset_ensures;
    broadcast use vstd::multiset::group_multiset_axioms;

    let pre = s.subrange(0, i);
    let post = s.subrange(i, s.len() as int);
    assert(s.insert(i, v) == pre.push(v) + post);
    lemma_multiset_commutative(pre.push(v), post);
    assert(pre.push(v).to_multiset() =~= pre.to_multiset().insert(v));
    assert(s =~= pre + post);
    lemma_multiset_commutative(pre, post);
    assert(s.insert(i, v).to_multiset() =~= s.to_multiset().insert(v));
}

/// A sequence with the same multiset of bundles as one whose ids are
/// distinct has distinct ids itself.
pub proof fn lemma_multiset_distinct_ids(a: Seq<BundleView>, b: Seq<BundleView>)
    requires
        a.to_multiset() == b.to_multiset(),
        distinct_ids(a),
    ensures
        distinct_ids(b),
{
    broadcast use vstd::seq_lib::group_to_multiset_ensures;
    broadcast use vstd::multiset::group_multiset_axioms;

    assert forall|i: int, j: int| 0 <= i < j < b.len() implies b[i].id != b[j].id by {
        if b[i].id == b[j].id {
            if b[i] == b[j] {
                let e = b[i];
                b.remove_ensures(i);
                assert(b.remove(i)[j - 1] == e);
                assert(b.remove(i).contains(e));
                assert(b.remove(i).to_multiset() =~= b.to_multiset().remove(e));
                assert(b.remove(i).to_multiset().count(e) > 0);
                assert(b.to_multiset().contains(e));
                assert(b.to_multiset().remove(e).count(e) == b.to_multiset().count(e) - 1);
                assert(b.to_multiset().count(e) >= 2);
                assert(a.to_multiset().count(e) >= 2);
                assert(a.contains(e));
                let i1 = choose|x: int| 0 <= x < a.len() && a[x] == e;
                assert(a.remove(i1).to_multiset() =~= a.to_multiset().remove(e));
                assert(a.remove(i1).to_multiset().count(e) > 0);
                assert(a.remove(i1).contains(e));
                let i2 = choose|x: int| 0 <= x < a.remove(i1).len() && a.remove(i1)[x] == e;
                a.remove_ensures(i1);
                if i2 < i1 {
                    assert(a[i2] == e && a[i1] == e && i2 != i1);
                } else {
                    assert(a[i2 + 1] == e && a[i1] == e && i2 + 1 != i1);
                }
            } else {
                assert(b.contains(b[i]));
                assert(b.to_multiset().count(b[i]) > 0);
                assert(a.contains(b[i]));
                assert(b.contains(b[j]));
                assert(b.to_multiset().count(b[j]) > 0);
                assert(a.contains(b[j]));
                let x1 = choose|x: int| 0 <= x < a.len() && a[x] == b[i];
                let x2 = choose|x: int| 0 <= x < a.len() && a[x] == b[j];
                assert(a[x1].id == a[x2].id && x1 != x2);
            }
        }
    }
}

/// Deterministic ranking: two rankings of the same multiset of bundles, both
/// in ranked order and with distinct ids, are the same sequence — however
/// the bundles arrived. Selection takes a prefix, so the winners agree too.
pub proof fn lemma_ranking_deterministic(x: Seq<BundleView>, y: Seq<BundleView>)
    requires
        priority_sorted(x),
        priority_sorted(y),
        x.to_multiset() == y.to_multiset(),
        distinct_ids(x),
        distinct_ids(y),
    ensures
        x == y,
    decreases x.len(),
{
    broadcast use vstd::seq_lib::group_to_multiset_ensures;
    broadcast use vstd::multiset::group_multiset_axioms;

    assert(x.len() == x.to_multiset().len());
    assert(y.len() == y.to_multiset().len());
    if x.len() == 0 {
        assert(x =~= y);
    } else {
        // The heads agree: each ranks at or above an occurrence of the other.
        assert(x.contains(x[0]) && y.contains(y[0]));
        assert(x.to_multiset().count(y[0]) > 0);
        assert(x.contains(y[0]));
        let i = choose|i: int| 0 <= i < x.len() && x[i] == y[0];
        assert(priority_leq(x[0], x[i]));
        assert(y.to_multiset().count(x[0]) > 0);
        assert(y.contains(x[0]));
        let j = choose|j: int| 0 <= j < y.len() && y[j] == x[0];
        assert(priority_leq(y[0], y[j]));
        assert(priority_leq(x[0], y[0]) && priority_leq(y[0], x[0]));
        assert(x[0].id == y[0].id);
        assert(i == 0);
        assert(x[0] == y[0]);

        let xt = x.drop_first();
        let yt = y.drop_first();
        assert(xt =~= x.remove(0));
        assert(yt =~= y.remove(0));
        assert(x.remove(0).to_multiset() =~= x.to_multiset().remove(x[0]));
        assert(y.remove(0).to_multiset() =~= y.to_multiset().remove(y[0]));
        assert(xt.to_multiset() =~= x.to_multiset().remove(x[0]));
        assert(yt.to_multiset() =~= y.to_multiset().remove(y[0]));
        assert(forall|a: int, b: int| 0 <= a < b < xt.len() ==> xt[a] == x[a + 1] && xt[b] == x[b
            + 1]);
        assert(forall|a: int, b: int| 0 <= a < b < yt.len() ==> yt[a] == y[a + 1] && yt[b] == y[b
            + 1]);
        lemma_ranking_deterministic(xt, yt);
        assert(x =~= seq![x[0]] + xt);
        assert(y =~= seq![y[0]] + yt);
        assert(x =~= y);
    }
}

/// The exec form of the ranking order.
fn priority_le(a: &Bundle, b: &Bundle) -> (r: bool)
    ensures
        r == priority_leq(a@, b@),
{
    a.tip_lamports > b.tip_lamports || (a.tip_lamports == b.tip_lamports && a.id <= b.id)
}

/// Where a bundle belongs in an already ranked vector: past everything that
/// ranks at or above it.
fn rank_position(sorted: &Vec<Bundle>, b: &Bundle) -> (p: usize)
    requires
        priority_sorted(views_of(sorted@)),
    ensures
        p <= sorted@.len(),
        forall|j: int| 0 <= j < p ==> priority_leq(#[trigger] views_of(sorted@)[j], b@),
        p < sorted@.len() ==> !priority_leq(views_of(sorted@)[p as int], b@),
    {
    let n = sorted.len();
    let mut p: usize = 0;
    while p < n
        invariant
            n == sorted@.len(),
            p <= n,
            forall|j: int| 0 <= j < p ==> priority_leq(#[trigger] views_of(sorted@)[j], b@),
        decreases n - p,
    {
        if !priority_le(&sorted[p], b) {
            return p;
        }
        p = p + 1;
    }
    p
}

/// The ranking order is total: any two bundles compare, and two that each
/// rank at or above the other agree on tip and id.
proof fn lemma_priority_total(x: BundleView, y: BundleView)
    ensures
        priority_leq(x, y) || priority_leq(y, x),
        (priority_leq(x, y) && priority_leq(y, x)) ==> (x.tip_lamports == y.tip_lamports && x.id
            == y.id),
{
}

/// The ranking order is transitive.
proof fn lemma_priority_trans(x: BundleView, y: BundleView, z: BundleView)
    ensures
        priority_leq(x, y) && priority_leq(y, z) ==> priority_leq(x, z),
{
}

/// Ranks bundles by `(tip descending, id ascending)` by insertion into a
/// ranked output, preserving the multiset of bundles.
fn sort_by_priority(input: &Vec<Bundle>) -> (r: Vec<Bundle>)
    ensures
        priority_sorted(views_of(r@)),
        views_of(r@).to_multiset() == views_of(input@).to_multiset(),
{
    broadcast use vstd::seq_lib::group_to_multiset_ensures;

    let n = input.len();
    let mut out: Vec<Bundle> = Vec::new();
    let mut k: usize = 0;
    while k < n
        invariant
            n == input@.len(),
            k <= n,
            priority_sorted(views_of(out@)),
            views_of(out@).to_multiset() == views_of(input@.take(k as int)).to_multiset(),
        decreases n - k,
    {
        broadcast use vstd::seq_lib::group_to_multiset_ensures;

        let ghost pre = views_of(out@);
        let b = input[k].clone();
        let p = rank_position(&out, &b);
        out.insert(p, b);
        proof {
            let newv = views_of(out@);
            assert(newv =~= pre.insert(p as int, b@));
            pre.insert_ensures(p as int, b@);
            lemma_insert_to_multiset(pre, p as int, b@);

            // The new element stays in ranked order at position p.
            assert forall|i: int, j: int| 0 <= i < j < newv.len() implies priority_leq(
                newv[i],
                newv[j],
            ) by {
                if j < p {
                    assert(newv[i] == pre[i] && newv[j] == pre[j]);
                } else if i > p {
                    assert(newv[i] == pre[i - 1] && newv[j] == pre[j - 1]);
                } else if i < p && j == p {
                    assert(newv[i] == pre[i] && newv[j] == b@);
                } else if i == p {
                    assert(newv[i] == b@ && newv[j] == pre[j - 1]);
                    assert((p as int) < pre.len() && j - 1 >= p);
                    assert(!priority_leq(pre[p as int], b@));
                    lemma_priority_total(pre[p as int], b@);
                    assert(priority_leq(b@, pre[p as int]));
                    if j - 1 > p {
                        assert(priority_leq(pre[p as int], pre[j - 1]));
                    }
                    lemma_priority_trans(b@, pre[p as int], pre[j - 1]);
                } else {
                    // i < p < j
                    assert(newv[i] == pre[i] && newv[j] == pre[j - 1]);
                    assert(priority_leq(pre[i], b@));
                    assert(!priority_leq(pre[p as int], b@));
                    lemma_priority_total(pre[p as int], b@);
                    if j - 1 > p {
                        assert(priority_leq(pre[p as int], pre[j - 1]));
                    }
                    lemma_priority_trans(b@, pre[p as int], pre[j - 1]);
                    lemma_priority_trans(pre[i], b@, pre[j - 1]);
                }
            }

            // The multiset grows by exactly this bundle.
            assert(views_of(input@.take(k as int + 1)) =~= views_of(input@.take(k as int)).push(
                b@,
            ));
            assert(views_of(input@.take(k as int + 1)).to_multiset() =~= views_of(
                input@.take(k as int),
            ).to_multiset().insert(b@));
        }
        k = k + 1;
    }
    proof {
        assert(input@.take(n as int) =~= input@);
    }
    out
}


/// Statistics of the tip-keyed in-memory auction.
#[derive(Clone, Copy, Debug)]
pub struct AuctionStats {
    pub slot: u64,
    pub total_bundles: usize,
    pub total_tip_value: u64,
    pub highest_tip: u64,
    pub avg_tip: u64,
}

/// Statistics of a time-boxed auction window.
#[derive(Clone, Copy, Debug)]
pub struct AuctionWindowStats {
    pub window_id: u64,
    pub total_bundles: usize,
    pub total_tip_value: u64,
    pub highest_tip: u64,
    pub lowest_tip: u64,
    pub avg_tip: u64,
    pub duration_ms: u64,
    pub elapsed_ms: u64,
}

/// Clones a vector of bundles; the models carry over unchanged.
fn clone_bundles(v: &Vec<Bundle>) -> (r: Vec<Bundle>)
    ensures
        views_of(r@) == views_of(v@),
{
    let r = v.clone();
    proof {
        assert forall|i: int| 0 <= i < r@.len() implies views_of(r@)[i] == views_of(v@)[i] by {
            assert(vstd::pervasive::cloned::<Bundle>(v@[i], r@[i]));
        }
        assert(views_of(r@) =~= views_of(v@));
    }
    r
}

/// A time-boxed collector of bundles for one slot. The window is open while
/// less than `duration_ms` milliseconds have passed since `start_time`; the
/// first observation at or past the boundary seals it, and a sealed window
/// never reopens.
pub struct AuctionWindow {
    pub window_id: u64,
    pub bundles: Vec<Bundle>,
    pub start_time: std::time::Instant,
    pub duration_ms: u64,
    pub max_bundles_for_block: usize,
    pub sealed: bool,
}

impl AuctionWindow {
    /// The bundles collected so far, in arrival order.
    pub open spec fn collected(&self) -> Seq<BundleView> {
        views_of(self.bundles@)
    }

    /// Everything but the collected bundles and the seal is the same.
    pub open spec fn same_frame(&self, other: &AuctionWindow) -> bool {
        &&& self.window_id == other.window_id
        &&& self.start_time == other.start_time
        &&& self.duration_ms == other.duration_ms
        &&& self.max_bundles_for_block == other.max_bundles_for_block
    }

    /// Opens a window now.
    pub fn new(window_id: u64, duration_ms: u64, max_bundles_for_block: usize) -> (r:
        AuctionWindow)
        ensures
            r.window_id == window_id,
            r.duration_ms == duration_ms,
            r.max_bundles_for_block == max_bundles_for_block,
            r.collected().len() == 0,
            !r.sealed,
    {
        AuctionWindow {
            window_id,
            bundles: Vec::new(),
            start_time: instant_now(),
            duration_ms,
            max_bundles_for_block,
            sealed: false,
        }
    }

    /// Appends the bundle while the window is open and reports `true`; past
    /// the cutoff the bundle is dropped silently, `false` comes back, and
    /// the window stays sealed for good.
    pub fn try_add_bundle(&mut self, bundle: Bundle) -> (r: bool)
        ensures
            final(self).same_frame(old(self)),
            old(self).sealed ==> !r,
            old(self).sealed ==> final(self).sealed,
            r ==> !final(self).sealed && final(self).bundles@ == old(self).bundles@.push(bundle),
            !r ==> final(self).sealed && final(self).bundles@ == old(self).bundles@,
    {
        if self.sealed {
            return false;
        }
        let elapsed = millis_since(&self.start_time);
        if elapsed >= self.duration_ms {
            self.sealed = true;
            return false;
        }
        self.bundles.push(bundle);
        true
    }

    /// Whether the window still accepts bundles; the first look at or past
    /// the boundary seals it.
    pub fn is_window_open(&mut self) -> (r: bool)
        ensures
            final(self).same_frame(old(self)),
            final(self).bundles@ == old(self).bundles@,
            old(self).sealed ==> final(self).sealed,
            r == !final(self).sealed,
    {
        if self.sealed {
            return false;
        }
        let elapsed = millis_since(&self.start_time);
        if elapsed >= self.duration_ms {
            self.sealed = true;
            return false;
        }
        true
    }

    /// How many milliseconds of the window remain, at most its duration.
    pub fn remaining_ms(&self) -> (r: u64)
        ensures
            r <= self.duration_ms,
    {
        let elapsed = millis_since(&self.start_time);
        if elapsed >= self.duration_ms {
            0
        } else {
            self.duration_ms - elapsed
        }
    }

    /// Ranks the collected bundles by `(tip descending, id ascending)` in
    /// place and hands the ranking back.
    pub fn rank_bundles_by_priority(&mut self) -> (r: Vec<Bundle>)
        ensures
            final(self).same_frame(old(self)),
            final(self).sealed == old(self).sealed,
            priority_sorted(final(self).collected()),
            final(self).collected().to_multiset() == old(self).collected().to_multiset(),
            views_of(r@) == final(self).collected(),
    {
        let sorted = sort_by_priority(&self.bundles);
        self.bundles = sorted;
        clone_bundles(&self.bundles)
    }

    /// Ranks the collected bundles and takes the first
    /// `max_bundles_for_block` of the ranking as winners.
    pub fn select_and_log_winners(&mut self) -> (r: Vec<Bundle>)
        ensures
            final(self).same_frame(old(self)),
            final(self).sealed == old(self).sealed,
            priority_sorted(final(self).collected()),
            final(self).collected().to_multiset() == old(self).collected().to_multiset(),
            views_of(r@) == final(self).collected().take(
                if final(self).max_bundles_for_block <= final(self).collected().len() {
                    final(self).max_bundles_for_block as int
                } else {
                    final(self).collected().len() as int
                },
            ),
            priority_sorted(views_of(r@)),
            r@.len() <= final(self).max_bundles_for_block,
            forall|i: int|
                0 <= i < r@.len() ==> old(self).collected().to_multiset().contains(
                    #[trigger] views_of(r@)[i],
                ),
            distinct_ids(old(self).collected()) ==> distinct_ids(views_of(r@)),
    {
        broadcast use vstd::seq_lib::group_to_multiset_ensures;

        let mut ranked = self.rank_bundles_by_priority();
        let stop: usize = if self.max_bundles_for_block <= ranked.len() {
            self.max_bundles_for_block
        } else {
            ranked.len()
        };
        ranked.truncate(stop);
        proof {
            assert(views_of(ranked@) =~= self.collected().take(stop as int));
            assert forall|i: int| 0 <= i < ranked@.len() implies old(self).collected()
                .to_multiset().contains(#[trigger] views_of(ranked@)[i]) by {
                let e = views_of(ranked@)[i];
                assert(e == self.collected()[i]);
                assert(self.collected().contains(e));
                assert(self.collected().to_multiset().count(e) > 0);
                assert(old(self).collected().to_multiset().count(e) > 0);
            }
            if distinct_ids(old(self).collected()) {
                lemma_multiset_distinct_ids(old(self).collected(), self.collected());
                assert forall|i: int, j: int| 0 <= i < j < views_of(ranked@).len() implies (
                views_of(ranked@)[i]).id != (views_of(ranked@)[j]).id by {
                    assert(views_of(ranked@)[i] == self.collected()[i]);
                    assert(views_of(ranked@)[j] == self.collected()[j]);
                }
            }
        }
        ranked
    }

    /// The window's statistics: counts, total, extremes and truncating
    /// average of the tips, and the elapsed time (which only the clock
    /// knows).
    pub fn get_auction_stats(&self) -> (r: AuctionWindowStats)
        requires
            sum_tips(self.collected()) <= u64::MAX,
        ensures
            r.window_id == self.window_id,
            r.duration_ms == self.duration_ms,
            r.total_bundles == self.collected().len(),
            r.total_tip_value == sum_tips(self.collected()),
            self.collected().len() == 0 ==> r.highest_tip == 0 && r.lowest_tip == 0,
            self.collected().len() > 0 ==> (exists|i: int|
                0 <= i < self.collected().len() && (#[trigger] self.collected()[i]).tip_lamports
                    == r.highest_tip) && (exists|i: int|
                0 <= i < self.collected().len() && (#[trigger] self.collected()[i]).tip_lamports
                    == r.lowest_tip),
            forall|i: int|
                0 <= i < self.collected().len() ==> (#[trigger] self.collected()[i]).tip_lamports
                    <= r.highest_tip,
            forall|i: int|
                0 <= i < self.collected().len() ==> (#[trigger] self.collected()[i]).tip_lamports
                    >= r.lowest_tip || self.collected().len() == 0,
            r.avg_tip == if self.collected().len() > 0 {
                sum_tips(self.collected()) / self.collected().len() as int
            } else {
                0
            },
    {
        let ghost views = self.collected();
        let n = self.bundles.len();
        let mut total: u64 = 0;
        let mut highest: u64 = 0;
        let mut lowest: u64 = 0;
        let mut k: usize = 0;
        while k < n
            invariant
                n == views.len(),
                views == self.collected(),
                sum_tips(views) <= u64::MAX,
                k <= n,
                total == sum_tips(views.take(k as int)),
                k == 0 ==> highest == 0 && lowest == 0,
                k > 0 ==> (exists|i: int|
                    0 <= i < k && (#[trigger] views[i]).tip_lamports == highest) && (exists|i: int|
                    0 <= i < k && (#[trigger] views[i]).tip_lamports == lowest),
                forall|i: int| 0 <= i < k ==> (#[trigger] views[i]).tip_lamports <= highest,
                forall|i: int| 0 <= i < k ==> (#[trigger] views[i]).tip_lamports >= lowest,
            decreases n - k,
        {
            proof {
                assert(views.take(k as int + 1).drop_last() =~= views.take(k as int));
                assert(views.take(k as int + 1).last() == views[k as int]);
                lemma_sum_tips_take_le(views, k as int + 1);
                lemma_sum_tips_nonneg(views.take(k as int));
            }
            let tip = self.bundles[k].tip_lamports;
            total = total + tip;
            if k == 0 {
                highest = tip;
                lowest = tip;
            } else {
                if tip > highest {
                    highest = tip;
                }
                if tip < lowest {
                    lowest = tip;
                }
            }
            k = k + 1;
        }
        proof {
            assert(views.take(n as int) =~= views);
        }
        let avg: u64 = if n > 0 {
            total / (n as u64)
        } else {
            0
        };
        AuctionWindowStats {
            window_id: self.window_id,
            total_bundles: n,
            total_tip_value: total,
            highest_tip: highest,
            lowest_tip: lowest,
            avg_tip: avg,
            duration_ms: self.duration_ms,
            elapsed_ms: millis_since(&self.start_time),
        }
    }
}

/// Whether `ranked` is the auction's ranking of `offered`: the same
/// bundles, in ranked order.
pub open spec fn is_ranking_of(ranked: Seq<BundleView>, offered: Seq<BundleView>) -> bool {
    priority_sorted(ranked) && ranked.to_multiset() == offered.to_multiset()
}

/// Runs an auction over a pre-collected set of bundles: each is offered to a
/// fresh 200 ms window in order (a window sealing mid-run drops the rest,
/// so what is collected is a prefix of what was offered), then the winners
/// are the top `max_bundles_for_block` of the ranking of that prefix.
pub fn simulate_auction_with_bundles(
    window_id: u64,
    bundles: Vec<Bundle>,
    max_bundles_for_block: usize,
) -> (r: Vec<Bundle>)
    ensures
        priority_sorted(views_of(r@)),
        r@.len() <= max_bundles_for_block,
        forall|i: int|
            0 <= i < r@.len() ==> views_of(bundles@).contains(#[trigger] views_of(r@)[i]),
        exists|p: int|
            #![trigger views_of(bundles@).take(p)]
            0 <= p <= bundles@.len() && exists|ranked: Seq<BundleView>|
                #![trigger is_ranking_of(ranked, views_of(bundles@).take(p))]
                is_ranking_of(ranked, views_of(bundles@).take(p)) && views_of(r@) == ranked.take(
                    if max_bundles_for_block <= ranked.len() {
                        max_bundles_for_block as int
                    } else {
                        ranked.len() as int
                    },
                ),
{
    broadcast use vstd::seq_lib::group_to_multiset_ensures;

    let ghost input_views = views_of(bundles@);
    let mut window = AuctionWindow::new(window_id, 200, max_bundles_for_block);
    let n = bundles.len();
    let mut k: usize = 0;
    proof {
        assert(window.collected() =~= input_views.take(0));
    }
    while k < n
        invariant
            n == bundles@.len(),
            input_views == views_of(bundles@),
            k <= n,
            window.max_bundles_for_block == max_bundles_for_block,
            forall|i: int|
                0 <= i < window.collected().len() ==> input_views.contains(
                    #[trigger] window.collected()[i],
                ),
            !window.sealed ==> window.collected() == input_views.take(k as int),
            exists|p: int| #![auto] 0 <= p <= k && window.collected() == input_views.take(p),
        decreases n - k,
    {
        let ghost before = window.collected();
        let accepted = window.try_add_bundle(bundles[k].clone());
        proof {
            if accepted {
                assert(window.collected() =~= before.push(bundles@[k as int]@));
                assert forall|i: int| 0 <= i < window.collected().len() implies input_views
                    .contains(#[trigger] window.collected()[i]) by {
                    if i < before.len() {
                        assert(window.collected()[i] == before[i]);
                    } else {
                        assert(window.collected()[i] == input_views[k as int]);
                    }
                }
                // An accepted bundle means the window never sealed, so the
                // whole offered prefix is collected.
                assert(before == input_views.take(k as int));
                assert(window.collected() =~= input_views.take(k as int + 1));
            } else {
                let p0 = choose|p: int| 0 <= p <= k && window.collected() == input_views.take(p);
                assert(0 <= p0 <= k + 1 && window.collected() == input_views.take(p0));
            }
        }
        k = k + 1;
    }
    let ghost collected = window.collected();
    let ghost prefix_len = choose|p: int|
        0 <= p <= n && window.collected() == input_views.take(p);
    let winners = window.select_and_log_winners();
    proof {
        broadcast use vstd::seq_lib::group_to_multiset_ensures;

        assert forall|i: int| 0 <= i < winners@.len() implies views_of(bundles@).contains(
            #[trigger] views_of(winners@)[i],
        ) by {
            let e = views_of(winners@)[i];
            assert(collected.to_multiset().contains(e));
            assert(collected.to_multiset().count(e) > 0);
            assert(collected.contains(e));
            let j0 = choose|j: int| 0 <= j < collected.len() && collected[j] == e;
            assert(input_views.contains(collected[j0]));
        }
        assert(input_views == views_of(bundles@));

        // The winners are the top of the ranking of the collected prefix.
        let ranked = window.collected();
        assert(collected == input_views.take(prefix_len));
        assert(is_ranking_of(ranked, input_views.take(prefix_len)));
        assert(views_of(winners@) == ranked.take(
            if max_bundles_for_block <= ranked.len() {
                max_bundles_for_block as int
            } else {
                ranked.len() as int
            },
        ));
    }
    winners
}


/// One entry of the tip-keyed auction: a bundle together with its priority
/// score, which is its tip.
pub struct AuctionBundle {
    pub bundle: Bundle,
    pub priority_score: u64,
}

/// The in-memory auction variant for ad-hoc re-runs: entries are keyed on
/// tip alone, and selection pops the highest tip first. Ties leave in an
/// unspecified order, so callers must treat the result as weak; the
/// time-boxed window is the canonical, deterministic auction.
pub struct BundleAuction<C: SolanaRpcClient> {
    pub bundles: Vec<AuctionBundle>,
    pub slot: u64,
    pub simulator: Option<TransactionSimulator<C>>,
}

impl<C: SolanaRpcClient> BundleAuction<C> {
    /// The bundles currently in the auction.
    pub open spec fn collected(&self) -> Seq<BundleView> {
        self.bundles@.map_values(|ab: AuctionBundle| ab.bundle@)
    }

    /// Every entry's score is its bundle's tip.
    pub open spec fn wf(&self) -> bool {
        forall|i: int|
            0 <= i < self.bundles@.len() ==> (#[trigger] self.bundles@[i]).priority_score
                == self.bundles@[i].bundle@.tip_lamports
    }

    /// An auction that admits without simulating.
    pub fn new(slot: u64) -> (r: BundleAuction<C>)
        ensures
            r.wf(),
            r.collected().len() == 0,
            r.slot == slot,
            r.simulator is None,
    {
        BundleAuction { bundles: Vec::new(), slot, simulator: None }
    }

    /// An auction whose admissions pass through the simulation gate.
    pub fn new_with_simulator(slot: u64, simulator: TransactionSimulator<C>) -> (r: BundleAuction<
        C,
    >)
        ensures
            r.wf(),
            r.collected().len() == 0,
            r.slot == slot,
            r.simulator == Some(simulator),
    {
        BundleAuction { bundles: Vec::new(), slot, simulator: Some(simulator) }
    }

    /// Admits a bundle, first passing it through the simulation gate when
    /// one is configured: admitted exactly when the bundle is structurally
    /// valid and every transaction simulates successfully. Without a gate,
    /// every bundle is admitted.
    pub fn add_bundle(&mut self, bundle: Bundle) -> (r: Result<(), BundleError>)
        requires
            old(self).wf(),
        ensures
            final(self).wf(),
            final(self).slot == old(self).slot,
            final(self).simulator == old(self).simulator,
            old(self).simulator is None ==> r is Ok,
            old(self).simulator matches Some(sim) ==> (r is Ok <==> (bundle@.structurally_valid()
                && sim.all_succeed(bundle@))),
            r is Ok ==> final(self).collected() == old(self).collected().push(bundle@),
            r is Err ==> final(self).collected() == old(self).collected(),
    {
        match &self.simulator {
            Some(simulator) => {
                match simulator.validate_bundle(&bundle) {
                    Ok(_) => {},
                    Err(e) => {
                        return Err(e);
                    },
                }
            },
            None => {},
        }
        let priority_score = bundle.tip_lamports;
        self.bundles.push(AuctionBundle { bundle, priority_score });
        proof {
            assert(final(self).collected() =~= old(self).collected().push(
                final(self).bundles@.last().bundle@,
            ));
        }
        Ok(())
    }

    /// Pops up to `max_bundles` winners, highest tip first. The winners
    /// leave the auction; together with what remains they are exactly the
    /// bundles that were in it, and every winner's tip is at least every
    /// remaining bundle's tip.
    pub fn select_winning_bundles(&mut self, max_bundles: usize) -> (r: Vec<Bundle>)
        requires
            old(self).wf(),
        ensures
            final(self).wf(),
            final(self).slot == old(self).slot,
            final(self).simulator == old(self).simulator,
            r@.len() == if max_bundles <= old(self).collected().len() {
                max_bundles as int
            } else {
                old(self).collected().len() as int
            },
            forall|i: int, j: int|
                0 <= i < j < r@.len() ==> (#[trigger] views_of(r@)[i]).tip_lamports
                    >= (#[trigger] views_of(r@)[j]).tip_lamports,
            views_of(r@).to_multiset().add(final(self).collected().to_multiset()) == old(self).collected().to_multiset(),
            forall|i: int, j: int|
                0 <= i < r@.len() && 0 <= j < final(self).collected().len() ==> (
                #[trigger] views_of(r@)[i]).tip_lamports >= (#[trigger] final(self).collected()[j]).tip_lamports,
    {
        broadcast use vstd::seq_lib::group_to_multiset_ensures;
        broadcast use vstd::multiset::group_multiset_axioms;

        let ghost orig = old(self).collected();
        let mut winners: Vec<Bundle> = Vec::new();
        let mut count: usize = 0;
        while count < max_bundles
            invariant
                orig == old(self).collected(),
                self.wf(),
                self.slot == old(self).slot,
                self.simulator == old(self).simulator,
                count <= max_bundles,
                winners@.len() == count,
                count + self.collected().len() == orig.len(),
                forall|i: int, j: int|
                    0 <= i < j < winners@.len() ==> (#[trigger] views_of(winners@)[i]).tip_lamports
                        >= (#[trigger] views_of(winners@)[j]).tip_lamports,
                forall|i: int, j: int|
                    0 <= i < winners@.len() && 0 <= j < self.collected().len() ==> (
                    #[trigger] views_of(winners@)[i]).tip_lamports >= (#[trigger] self
                        .collected()[j]).tip_lamports,
                views_of(winners@).to_multiset().add(self.collected().to_multiset()) == orig
                    .to_multiset(),
            ensures
                orig == old(self).collected(),
                count == max_bundles || self.collected().len() == 0,
                self.wf(),
                self.slot == old(self).slot,
                self.simulator == old(self).simulator,
                winners@.len() == count,
                count <= max_bundles,
                count + self.collected().len() == orig.len(),
                forall|i: int, j: int|
                    0 <= i < j < winners@.len() ==> (#[trigger] views_of(winners@)[i]).tip_lamports
                        >= (#[trigger] views_of(winners@)[j]).tip_lamports,
                forall|i: int, j: int|
                    0 <= i < winners@.len() && 0 <= j < self.collected().len() ==> (
                    #[trigger] views_of(winners@)[i]).tip_lamports >= (#[trigger] self
                        .collected()[j]).tip_lamports,
                views_of(winners@).to_multiset().add(self.collected().to_multiset()) == orig
                    .to_multiset(),
            decreases max_bundles - count,
        {
            broadcast use vstd::seq_lib::group_to_multiset_ensures;
            broadcast use vstd::multiset::group_multiset_axioms;

            let m = self.bundles.len();
            if m == 0 {
                break;
            }

            // The first entry with the highest score.
            let mut best: usize = 0;
            let mut idx: usize = 1;
            while idx < m
                invariant
                    m == self.bundles@.len(),
                    0 < m,
                    best < idx <= m,
                    forall|j: int|
                        0 <= j < idx ==> (#[trigger] self.bundles@[j]).priority_score
                            <= self.bundles@[best as int].priority_score,
                decreases m - idx,
            {
                if self.bundles[idx].priority_score > self.bundles[best].priority_score {
                    best = idx;
                }
                idx = idx + 1;
            }

            proof {
                assert(0 <= best < m);
            }
            let ghost entries = self.bundles@;
            let ghost before = self.collected();
            let ghost wbefore = views_of(winners@);
            proof {
                assert(forall|j: int|
                    0 <= j < m ==> (#[trigger] entries[j]).priority_score
                        <= entries[best as int].priority_score);
            }
            let entry = self.bundles.remove(best);
            winners.push(entry.bundle);
            count = count + 1;
            proof {
                let e = before[best as int];
                assert(entry.bundle@ == e);

                // The remaining bundles are the old ones with `e` taken out.
                before.remove_ensures(best as int);
                assert(self.bundles@ == entries.remove(best as int));
                assert forall|x: int| 0 <= x < self.collected().len() implies #[trigger] self
                    .collected()[x] == before.remove(best as int)[x] by {
                    if x < best {
                        assert(self.bundles@[x] == entries[x]);
                    } else {
                        assert(self.bundles@[x] == entries[x + 1]);
                    }
                }
                assert(self.collected() =~= before.remove(best as int));
                assert(self.collected().to_multiset() =~= before.to_multiset().remove(e));
                assert(views_of(winners@) =~= wbefore.push(e));
                assert(views_of(winners@).to_multiset() =~= wbefore.to_multiset().insert(e));
                assert(before.contains(e));
                assert(before.to_multiset().count(e) > 0);
                assert((wbefore.to_multiset().insert(e)).add(before.to_multiset().remove(e))
                    =~= wbefore.to_multiset().add(before.to_multiset()));

                // The popped bundle carries the highest tip still in play.
                assert forall|x: int| 0 <= x < before.len() implies (#[trigger] before[x])
                    .tip_lamports <= e.tip_lamports by {
                    assert(before[x] == entries[x].bundle@);
                    assert(entries[x].priority_score <= entries[best as int].priority_score);
                }
                assert forall|i: int, j: int|
                    0 <= i < winners@.len() && 0 <= j < self.collected().len() implies (
                #[trigger] views_of(winners@)[i]).tip_lamports >= (#[trigger] self
                    .collected()[j]).tip_lamports by {
                    let c = self.collected()[j];
                    assert(c == before.remove(best as int)[j]);
                    assert(c.tip_lamports <= e.tip_lamports);
                    if i < wbefore.len() {
                        assert(views_of(winners@)[i] == wbefore[i]);
                        assert(wbefore[i].tip_lamports >= before[best as int].tip_lamports);
                    } else {
                        assert(views_of(winners@)[i] == e);
                    }
                }
                assert forall|i: int, j: int|
                    0 <= i < j < winners@.len() implies (#[trigger] views_of(winners@)[i])
                    .tip_lamports >= (#[trigger] views_of(winners@)[j]).tip_lamports by {
                    if j < wbefore.len() {
                    } else {
                        assert(views_of(winners@)[j] == e);
                        assert(views_of(winners@)[i] == wbefore[i]);
                        assert(wbefore[i].tip_lamports >= before[best as int].tip_lamports);
                    }
                }
            }
        }
        winners
    }

    /// The auction's statistics: count, total and highest tip, and the
    /// truncating average (zero when empty).
    pub fn get_auction_stats(&self) -> (r: AuctionStats)
        requires
            self.wf(),
            sum_tips(self.collected()) <= u64::MAX,
        ensures
            r.slot == self.slot,
            r.total_bundles == self.collected().len(),
            r.total_tip_value == sum_tips(self.collected()),
            self.collected().len() == 0 ==> r.highest_tip == 0,
            self.collected().len() > 0 ==> exists|i: int|
                0 <= i < self.collected().len() && (#[trigger] self.collected()[i]).tip_lamports
                    == r.highest_tip,
            forall|i: int|
                0 <= i < self.collected().len() ==> (#[trigger] self.collected()[i]).tip_lamports
                    <= r.highest_tip,
            r.avg_tip == if self.collected().len() > 0 {
                sum_tips(self.collected()) / self.collected().len() as int
            } else {
                0
            },
    {
        let ghost views = self.collected();
        let n = self.bundles.len();
        let mut total: u64 = 0;
        let mut highest: u64 = 0;
        let mut k: usize = 0;
        while k < n
            invariant
                n == views.len(),
                views == self.collected(),
                self.wf(),
                sum_tips(views) <= u64::MAX,
                k <= n,
                total == sum_tips(views.take(k as int)),
                k == 0 ==> highest == 0,
                k > 0 ==> exists|i: int|
                    0 <= i < k && (#[trigger] views[i]).tip_lamports == highest,
                forall|i: int| 0 <= i < k ==> (#[trigger] views[i]).tip_lamports <= highest,
            decreases n - k,
        {
            proof {
                assert(views.take(k as int + 1).drop_last() =~= views.take(k as int));
                assert(views.take(k as int + 1).last() == views[k as int]);
                lemma_sum_tips_take_le(views, k as int + 1);
                lemma_sum_tips_nonneg(views.take(k as int));
                assert(self.bundles@[k as int].priority_score == views[k as int].tip_lamports);
            }
            let tip = self.bundles[k].priority_score;
            total = total + tip;
            if k == 0 || tip > highest {
                highest = tip;
            }
            k = k + 1;
        }
        proof {
            assert(views.take(n as int) =~= views);
        }
        let avg: u64 = if n > 0 {
            total / (n as u64)
        } else {
            0
        };
        AuctionStats {
            slot: self.slot,
            total_bundles: n,
            total_tip_value: total,
            highest_tip: highest,
            avg_tip: avg,
        }
    }
}


/// The full pipeline is deterministic: two rankings produced from the same
/// multiset of admitted bundles — however the bundles arrived — are the
/// same sequence, and selecting the top `k` of each yields the same
/// winners. Admission itself is a pure predicate of each bundle, so equal
/// collections are admitted equally; the block hash alone varies with the
/// wall clock.
pub proof fn lemma_pipeline_deterministic(x: Seq<BundleView>, y: Seq<BundleView>, k: int)
    requires
        priority_sorted(x),
        priority_sorted(y),
        x.to_multiset() == y.to_multiset(),
        distinct_ids(x),
        0 <= k,
    ensures
        x == y,
        x.take(if k <= x.len() { k } else { x.len() as int }) == y.take(
            if k <= y.len() {
                k
            } else {
                y.len() as int
            },
        ),
{
    lemma_multiset_distinct_ids(x, y);
    lemma_ranking_deterministic(x, y);
}

} // verus!
