//! The bundle pool: a bounded staging area that keeps bundles in insertion
//! order, answers lookups and tip-range queries, and announces every change
//! on a best-effort broadcast bus.

use vstd::prelude::*;

use crate::bundle::Bundle;
use crate::bundle::BundleView;
use crate::bundle::sum_tips;
use crate::bundle::lemma_sum_tips_nonneg;
use crate::bundle::lemma_sum_tips_take_le;

verus! {

/// A change of the pool, as announced to subscribers.
#[derive(Clone, Copy, Debug, PartialEq, Eq, Structural)]
pub enum PoolEvent {
    BundleAdded(u128),
    BundleRemoved(u128),
    BundleUpdated(u128),
}

#[verifier::external_type_specification]
#[verifier::external_body]
#[verifier::reject_recursive_types(T)]
pub struct ExBroadcastSender<T>(tokio::sync::broadcast::Sender<T>);

#[verifier::external_type_specification]
#[verifier::external_body]
#[verifier::reject_recursive_types(T)]
pub struct ExBroadcastReceiver<T>(tokio::sync::broadcast::Receiver<T>);

/// Relies on tokio::sync::broadcast::channel: a fresh event bus asked to
/// buffer 1000 events per subscriber (tokio may round the capacity up).
#[verifier::external_body]
fn new_event_sender() -> tokio::sync::broadcast::Sender<PoolEvent> {
    let (sender, _receiver) = tokio::sync::broadcast::channel(1000);
    sender
}

/// Relies on tokio::sync::broadcast::Sender::send: best-effort delivery to
/// whoever is subscribed; a full or absent subscriber misses the event, so
/// nothing is promised.
#[verifier::external_body]
fn publish_event(sender: &tokio::sync::broadcast::Sender<PoolEvent>, event: PoolEvent) {
    let _ = sender.send(event);
}

/// Relies on tokio::sync::broadcast::Sender::subscribe: a receiver that will
/// see events sent from this point on.
#[verifier::external_body]
fn subscribe_to(
    sender: &tokio::sync::broadcast::Sender<PoolEvent>,
) -> tokio::sync::broadcast::Receiver<PoolEvent> {
    sender.subscribe()
}

/// A snapshot of the pool's aggregate numbers.
#[derive(Clone, Copy, Debug)]
pub struct PoolStats {
    pub total_bundles: usize,
    pub pending_count: usize,
    pub total_tip_value: u64,
    pub avg_tip: u64,
}

/// Why the pool refused a bundle.
#[derive(Debug)]
pub enum PoolError {
    PoolFull,
    InvalidBundle(String),
    BundleNotFound,
}

/// The bundle pool. Bundles sit in one insertion-ordered store; the pending
/// queue is exactly the sequence of their ids, so the two can never drift
/// apart.
pub struct TransactionPool {
    bundles: Vec<Bundle>,
    event_sender: tokio::sync::broadcast::Sender<PoolEvent>,
    max_pool_size: usize,
}

impl TransactionPool {
    /// The bundles currently held, in insertion order.
    pub closed spec fn bundle_views(&self) -> Seq<BundleView> {
        self.bundles@.map_values(|b: Bundle| b@)
    }

    /// The pending queue: the held bundles' ids, in insertion order.
    pub open spec fn pending_ids(&self) -> Seq<u128> {
        self.bundle_views().map_values(|b: BundleView| b.id)
    }

    /// The configured capacity.
    pub closed spec fn max_size(&self) -> usize {
        self.max_pool_size
    }

    /// Whether a bundle with this id is held.
    pub open spec fn contains_id(&self, id: u128) -> bool {
        exists|i: int| 0 <= i < self.bundle_views().len() && self.bundle_views()[i].id == id
    }

    /// The first held bundle with this id.
    pub open spec fn first_with(&self, id: u128) -> BundleView {
        self.bundle_views()[self.first_index_of(id)]
    }

    /// The position of the first held bundle with this id.
    pub open spec fn first_index_of(&self, id: u128) -> int {
        choose|i: int|
            0 <= i < self.bundle_views().len() && self.bundle_views()[i].id == id && forall|j: int|
                0 <= j < i ==> (#[trigger] self.bundle_views()[j]).id != id
    }

    /// The pool map, keyed by bundle id.
    pub open spec fn pool_map(&self) -> Map<u128, BundleView> {
        Map::new(|id: u128| self.contains_id(id), |id: u128| self.first_with(id))
    }

    /// The pool's invariant: it holds no more than its capacity, and only
    /// structurally valid bundles.
    pub open spec fn wf(&self) -> bool {
        &&& self.bundle_views().len() <= self.max_size()
        &&& forall|i: int|
            0 <= i < self.bundle_views().len() ==> (#[trigger] self.bundle_views()[i]).structurally_valid()
    }

    pub fn new(max_pool_size: usize) -> (r: TransactionPool)
        ensures
            r.wf(),
            r.bundle_views().len() == 0,
            r.max_size() == max_pool_size,
    {
        TransactionPool {
            bundles: Vec::new(),
            event_sender: new_event_sender(),
            max_pool_size,
        }
    }

    /// Admits a bundle: refused with `PoolFull` at capacity, with
    /// `InvalidBundle` when the structural check fails; otherwise the bundle
    /// is appended to the store and queue and `BundleAdded` is announced.
    pub fn add_bundle(&mut self, bundle: Bundle) -> (r: Result<(), PoolError>)
        requires
            old(self).wf(),
        ensures
            final(self).wf(),
            final(self).max_size() == old(self).max_size(),
            final(self).bundle_views().len() <= final(self).max_size(),
            r is Ok <==> (old(self).bundle_views().len() < old(self).max_size()
                && bundle@.structurally_valid()),
            r is Ok ==> final(self).bundle_views() == old(self).bundle_views().push(bundle@),
            r is Err ==> final(self).bundle_views() == old(self).bundle_views(),
            (r matches Err(e) && e is PoolFull) <==> old(self).bundle_views().len() >= old(self).max_size(),
            (r matches Err(e) && e matches PoolError::InvalidBundle(_)) <==> (old(self)
                .bundle_views().len() < old(self).max_size() && !bundle@.structurally_valid()),
            r matches Err(e) ==> (e matches PoolError::InvalidBundle(m) ==> (
            !bundle@.structurally_valid() && (bundle@.transactions.len() == 0 ==> m@
                == "Bundle cannot be empty"@) && (bundle@.transactions.len() > 5 ==> m@
                == "Bundle contains too many transactions (max 5)"@))),
    {
        if self.bundles.len() >= self.max_pool_size {
            return Err(PoolError::PoolFull);
        }
        match bundle.validate() {
            Err(e) => {
                return Err(PoolError::InvalidBundle(e.message()));
            },
            Ok(()) => {},
        }
        let bundle_id = bundle.id;
        proof {
            assert(bundle@.structurally_valid());
        }
        self.bundles.push(bundle);
        publish_event(&self.event_sender, PoolEvent::BundleAdded(bundle_id));
        proof {
            assert(final(self).bundle_views() =~= old(self).bundle_views().push(bundle@));
        }
        Ok(())
    }

    /// Looks a bundle up by id; the pool is unchanged.
    pub fn get_bundle(&self, id: u128) -> (r: Option<Bundle>)
        ensures
            r is Some <==> self.contains_id(id),
            r matches Some(b) ==> b@ == self.first_with(id) && b@.id == id,
    {
        let n = self.bundles.len();
        let mut k: usize = 0;
        while k < n
            invariant
                n == self.bundle_views().len(),
                k <= n,
                forall|j: int| 0 <= j < k ==> (#[trigger] self.bundle_views()[j]).id != id,
            decreases n - k,
        {
            if self.bundles[k].id == id {
                let found = self.bundles[k].clone();
                proof {
                    assert(self.bundle_views()[k as int].id == id);
                    let c = self.first_index_of(id);
                    assert(c == k as int);
                    assert(found@ == self.bundle_views()[k as int]);
                }
                return Some(found);
            }
            k = k + 1;
        }
        None
    }

    /// The held bundles with every occurrence of this id taken out.
    pub open spec fn without_id(s: Seq<BundleView>, id: u128) -> Seq<BundleView>
        decreases s.len(),
    {
        if s.len() == 0 {
            s
        } else if s.first().id == id {
            Self::without_id(s.drop_first(), id)
        } else {
            seq![s.first()] + Self::without_id(s.drop_first(), id)
        }
    }

    /// What taking an id out leaves behind: only other ids, each of them an
    /// element of the original sequence.
    pub proof fn lemma_without_id(s: Seq<BundleView>, id: u128)
        ensures
            Self::without_id(s, id).len() <= s.len(),
            forall|i: int|
                0 <= i < Self::without_id(s, id).len() ==> (#[trigger] Self::without_id(s, id)[i]).id
                    != id,
            forall|i: int|
                #![trigger Self::without_id(s, id)[i]]
                0 <= i < Self::without_id(s, id).len() ==> exists|j: int|
                    0 <= j < s.len() && Self::without_id(s, id)[i] == #[trigger] s[j],
        decreases s.len(),
    {
        if s.len() > 0 {
            Self::lemma_without_id(s.drop_first(), id);
            let rest = Self::without_id(s.drop_first(), id);
            assert forall|i: int| #![trigger rest[i]] 0 <= i < rest.len() implies exists|j: int|
                0 <= j < s.len() && rest[i] == #[trigger] s[j] by {
                let j0 = choose|j: int|
                    0 <= j < s.drop_first().len() && rest[i] == #[trigger] s.drop_first()[j];
                assert(s.drop_first()[j0] == s[j0 + 1]);
                assert(rest[i] == s[j0 + 1]);
            }
            if s.first().id != id {
                let w = Self::without_id(s, id);
                assert(w == seq![s.first()] + rest);
                assert(w[0] == s[0]);
                assert forall|i: int| #![trigger w[i]] 1 <= i < w.len() implies exists|j: int|
                    0 <= j < s.len() && w[i] == #[trigger] s[j] by {
                    assert(w[i] == rest[i - 1]);
                    let j0 = choose|j: int| 0 <= j < s.len() && rest[i - 1] == #[trigger] s[j];
                    assert(w[i] == s[j0]);
                }
            }
        }
    }

    /// Takes a bundle out by id: the first match is returned, every match
    /// leaves the store and queue, and `BundleRemoved` is announced. An
    /// unknown id leaves the pool unchanged.
    pub fn remove_bundle(&mut self, id: u128) -> (r: Option<Bundle>)
        requires
            old(self).wf(),
        ensures
            final(self).wf(),
            final(self).max_size() == old(self).max_size(),
            r is Some <==> old(self).contains_id(id),
            r matches Some(b) ==> b@ == old(self).first_with(id),
            old(self).contains_id(id) ==> final(self).bundle_views() == Self::without_id(
                old(self).bundle_views(),
                id,
            ),
            !old(self).contains_id(id) ==> final(self).bundle_views() == old(self).bundle_views(),
            !final(self).contains_id(id),
    {
        let ghost views = self.bundle_views();
        let n = self.bundles.len();

        // Find the first match, if any.
        let mut first: usize = n;
        let mut k: usize = 0;
        while k < n
            invariant_except_break
                first == n,
                forall|j: int| 0 <= j < k ==> (#[trigger] views[j]).id != id,
            invariant
                n == views.len(),
                views == self.bundle_views(),
                k <= n,
            ensures
                n == views.len(),
                views == self.bundle_views(),
                first <= n,
                first < n ==> views[first as int].id == id,
                forall|j: int| 0 <= j < first ==> (#[trigger] views[j]).id != id,
                first == n ==> forall|j: int| 0 <= j < n ==> (#[trigger] views[j]).id != id,
            decreases n - k,
        {
            if self.bundles[k].id == id {
                first = k;
                break;
            }
            k = k + 1;
        }
        if first == n {
            return None;
        }
        let found = self.bundles[first].clone();
        proof {
            assert(views[first as int].id == id);
            assert(self.contains_id(id));
            let c = self.first_index_of(id);
            assert(views[c].id == id);
            assert(c == first as int);
        }

        // Keep everything that does not carry the id.
        let mut kept: Vec<Bundle> = Vec::new();
        let mut m: usize = 0;
        proof {
            assert(views.skip(0) =~= views);
        }
        while m < n
            invariant
                n == views.len(),
                views == self.bundle_views(),
                old(self).wf(),
                *self == *old(self),
                m <= n,
                kept@.len() <= m,
                kept@.map_values(|b: Bundle| b@) + Self::without_id(views.skip(m as int), id)
                    =~= Self::without_id(views, id),
            decreases n - m,
        {
            proof {
                assert(views.skip(m as int).first() == views[m as int]);
                assert(views.skip(m as int).drop_first() =~= views.skip(m as int + 1));
            }
            if self.bundles[m].id != id {
                kept.push(self.bundles[m].clone());
                proof {
                    assert(kept@.map_values(|b: Bundle| b@) =~= kept@.drop_last().map_values(
                        |b: Bundle| b@,
                    ).push(views[m as int]));
                }
            }
            m = m + 1;
        }
        proof {
            assert(views.skip(n as int) =~= Seq::<BundleView>::empty());
            assert(kept@.map_values(|b: Bundle| b@) =~= Self::without_id(views, id));
            Self::lemma_without_id(views, id);
        }
        self.bundles = kept;
        publish_event(&self.event_sender, PoolEvent::BundleRemoved(id));
        proof {
            assert forall|i: int| 0 <= i < self.bundle_views().len() implies (#[trigger] self
                .bundle_views()[i]).structurally_valid() by {
                let j = choose|j: int|
                    0 <= j < views.len() && Self::without_id(views, id)[i] == views[j];
            }
        }
        Some(found)
    }

    /// Hands back up to `count` bundles, strictly in insertion order.
    pub fn get_pending_bundles(&self, count: usize) -> (r: Vec<Bundle>)
        ensures
            r@.map_values(|b: Bundle| b@) == self.bundle_views().take(
                if count <= self.bundle_views().len() {
                    count as int
                } else {
                    self.bundle_views().len() as int
                },
            ),
    {
        let n = self.bundles.len();
        let stop: usize = if count <= n {
            count
        } else {
            n
        };
        let mut r: Vec<Bundle> = Vec::new();
        let mut k: usize = 0;
        while k < stop
            invariant
                stop <= n,
                n == self.bundle_views().len(),
                k <= stop,
                r@.map_values(|b: Bundle| b@) =~= self.bundle_views().take(k as int),
            decreases stop - k,
        {
            r.push(self.bundles[k].clone());
            proof {
                assert(r@.map_values(|b: Bundle| b@) =~= r@.drop_last().map_values(
                    |b: Bundle| b@,
                ).push(self.bundle_views()[k as int]));
                assert(self.bundle_views().take(k as int + 1) =~= self.bundle_views().take(
                    k as int,
                ).push(self.bundle_views()[k as int]));
                assert(r@.map_values(|b: Bundle| b@) =~= self.bundle_views().take(k as int + 1));
            }
            k = k + 1;
        }
        r
    }

    /// The bundles of `s` whose tip lies in the inclusive range, in order.
    pub open spec fn tips_in_range(s: Seq<BundleView>, lo: u64, hi: u64) -> Seq<BundleView>
        decreases s.len(),
    {
        if s.len() == 0 {
            s
        } else if lo <= s.first().tip_lamports <= hi {
            seq![s.first()] + Self::tips_in_range(s.drop_first(), lo, hi)
        } else {
            Self::tips_in_range(s.drop_first(), lo, hi)
        }
    }

    /// Every held bundle whose tip lies in the inclusive range, in insertion
    /// order (no order is promised to callers).
    pub fn get_bundles_by_tip_range(&self, min_tip: u64, max_tip: u64) -> (r: Vec<Bundle>)
        ensures
            r@.map_values(|b: Bundle| b@) == Self::tips_in_range(
                self.bundle_views(),
                min_tip,
                max_tip,
            ),
    {
        let ghost views = self.bundle_views();
        let n = self.bundles.len();
        let mut r: Vec<Bundle> = Vec::new();
        let mut k: usize = 0;
        proof {
            assert(views.skip(0) =~= views);
        }
        while k < n
            invariant
                n == views.len(),
                views == self.bundle_views(),
                k <= n,
                r@.map_values(|b: Bundle| b@) + Self::tips_in_range(
                    views.skip(k as int),
                    min_tip,
                    max_tip,
                ) =~= Self::tips_in_range(views, min_tip, max_tip),
            decreases n - k,
        {
            proof {
                assert(views.skip(k as int).first() == views[k as int]);
                assert(views.skip(k as int).drop_first() =~= views.skip(k as int + 1));
            }
            let b = &self.bundles[k];
            if b.tip_lamports >= min_tip && b.tip_lamports <= max_tip {
                r.push(b.clone());
                proof {
                    assert(r@.map_values(|b: Bundle| b@) =~= r@.drop_last().map_values(
                        |b: Bundle| b@,
                    ).push(views[k as int]));
                }
            }
            k = k + 1;
        }
        proof {
            assert(views.skip(n as int) =~= Seq::<BundleView>::empty());
        }
        r
    }

    /// The pool's aggregate numbers: counts, the total tip, and the
    /// truncating average tip (zero on an empty pool).
    pub fn get_stats(&self) -> (r: PoolStats)
        requires
            sum_tips(self.bundle_views()) <= u64::MAX,
        ensures
            r.total_bundles == self.bundle_views().len(),
            r.pending_count == self.pending_ids().len(),
            r.total_tip_value == sum_tips(self.bundle_views()),
            r.avg_tip == if self.bundle_views().len() > 0 {
                sum_tips(self.bundle_views()) / self.bundle_views().len() as int
            } else {
                0
            },
    {
        let n = self.bundles.len();
        let mut total: u64 = 0;
        let mut k: usize = 0;
        while k < n
            invariant
                n == self.bundle_views().len(),
                sum_tips(self.bundle_views()) <= u64::MAX,
                k <= n,
                total == sum_tips(self.bundle_views().take(k as int)),
            decreases n - k,
        {
            proof {
                assert(self.bundle_views().take(k as int + 1).drop_last() =~= self.bundle_views()
                    .take(k as int));
                assert(self.bundle_views().take(k as int + 1).last() == self.bundle_views()[k as int]);
                lemma_sum_tips_take_le(self.bundle_views(), k as int + 1);
                lemma_sum_tips_nonneg(self.bundle_views().take(k as int));
            }
            total = total + self.bundles[k].tip_lamports;
            k = k + 1;
        }
        proof {
            assert(self.bundle_views().take(n as int) =~= self.bundle_views());
        }
        let avg: u64 = if n > 0 {
            total / (n as u64)
        } else {
            0
        };
        PoolStats { total_bundles: n, pending_count: n, total_tip_value: total, avg_tip: avg }
    }

    /// A receiver for the pool's event stream. Delivery is best effort: a
    /// subscriber whose buffer fills misses events and is expected to
    /// resynchronise through `get_stats` and `get_pending_bundles`.
    pub fn subscribe_events(&self) -> tokio::sync::broadcast::Receiver<PoolEvent> {
        subscribe_to(&self.event_sender)
    }

    /// Empties the pool.
    pub fn clear(&mut self)
        requires
            old(self).wf(),
        ensures
            final(self).wf(),
            final(self).max_size() == old(self).max_size(),
            final(self).bundle_views().len() == 0,
    {
        self.bundles = Vec::new();
    }
}

/// The pool map and the pending queue can never drift apart: an id is a key
/// of the map exactly when it stands in the queue.
pub proof fn lemma_pool_map_queue_agree(p: &TransactionPool)
    ensures
        forall|id: u128| #[trigger]
            p.pool_map().dom().contains(id) <==> p.pending_ids().contains(id),
{
    assert forall|id: u128| #[trigger] p.pool_map().dom().contains(id) implies p.pending_ids()
        .contains(id) by {
        let i = choose|i: int| 0 <= i < p.bundle_views().len() && p.bundle_views()[i].id == id;
        assert(p.pending_ids()[i] == id);
    }
    assert forall|id: u128| p.pending_ids().contains(id) implies p.pool_map().dom().contains(
        id,
    ) by {
        let i = choose|i: int| 0 <= i < p.pending_ids().len() && p.pending_ids()[i] == id;
        assert(p.bundle_views()[i].id == id);
    }
}

} // verus!
