//! The wire shape blocks travel in: bundles as they arrive from the queue,
//! the ordered block that goes out to a validator endpoint, the
//! deterministic hash over the ordered bundles, and the fallback ordering
//! keyed on `(tip, hashed id)`.

use vstd::prelude::*;
use vstd::string::StringSliceAdditionalSpecFns;
use vstd::utf8::encode_utf8;

use crate::encoding::hex_chars;
use crate::encoding::u64_le_bytes;
use crate::encoding::u64_le_seq;
use crate::platform::hash_str;
use crate::platform::sha256;
use crate::platform::sha256_of;
use crate::platform::str_hash64;

verus! {

/// A bundle in its wire form: the id and transactions as text, the tip, the
/// searcher and a timestamp.
pub struct WireBundle {
    pub id: String,
    pub transactions: Vec<String>,
    pub tip: u64,
    pub searcher_pubkey: String,
    pub timestamp: u64,
}

/// Mathematical model of a wire bundle.
#[verifier::ext_equal]
pub struct WireBundleView {
    pub id: Seq<char>,
    pub transactions: Seq<Seq<char>>,
    pub tip: u64,
    pub searcher_pubkey: Seq<char>,
    pub timestamp: u64,
}

impl View for WireBundle {
    type V = WireBundleView;

    open spec fn view(&self) -> WireBundleView {
        WireBundleView {
            id: self.id@,
            transactions: self.transactions@.map_values(|s: String| s@),
            tip: self.tip,
            searcher_pubkey: self.searcher_pubkey@,
            timestamp: self.timestamp,
        }
    }
}

impl Clone for WireBundle {
    fn clone(&self) -> (r: Self)
        ensures
            r@ == self@,
    {
        let transactions = self.transactions.clone();
        proof {
            assert forall|i: int| #![trigger transactions@[i]] 0 <= i < transactions@.len()
                implies transactions@.map_values(|s: String| s@)[i] == self.transactions@
                .map_values(|s: String| s@)[i] by {
                assert(vstd::pervasive::cloned::<String>(self.transactions@[i], transactions@[i]));
            }
            assert(transactions@.map_values(|s: String| s@) =~= self.transactions@.map_values(
                |s: String| s@,
            ));
        }
        let r = WireBundle {
            id: self.id.clone(),
            transactions,
            tip: self.tip,
            searcher_pubkey: self.searcher_pubkey.clone(),
            timestamp: self.timestamp,
        };
        proof {
            assert(r@ =~= self@);
        }
        r
    }
}

/// An ordered block on the wire: the window, the winners in order, and the
/// hash over them.
pub struct OrderedBlock {
    pub window_id: u64,
    pub ordered_bundles: Vec<WireBundle>,
    pub ordered_hash: String,
}

/// The wire bundles a vector holds, as their models.
pub open spec fn wire_views(s: Seq<WireBundle>) -> Seq<WireBundleView> {
    s.map_values(|b: WireBundle| b@)
}

/// What the ordered hash is computed over: each bundle's id bytes followed
/// by its tip in little-endian bytes, in order.
pub open spec fn wire_hash_preimage(s: Seq<WireBundleView>) -> Seq<u8>
    decreases s.len(),
{
    if s.len() == 0 {
        Seq::empty()
    } else {
        wire_hash_preimage(s.drop_last()) + encode_utf8(s.last().id) + u64_le_seq(s.last().tip)
    }
}

/// The deterministic hash over a sequence of wire bundles: SHA-256 of each
/// bundle's id bytes and little-endian tip, written as lowercase hex.
pub fn create_simple_hash(bundles: &Vec<WireBundle>) -> (r: String)
    ensures
        r@ == hex_chars(sha256_of(wire_hash_preimage(wire_views(bundles@)))),
{
    broadcast use vstd::string::is_ascii_spec_bytes;

    let ghost views = wire_views(bundles@);
    let mut pre: Vec<u8> = Vec::new();
    let n = bundles.len();
    let mut k: usize = 0;
    proof {
        assert(views.take(0) =~= Seq::<WireBundleView>::empty());
        assert(pre@ =~= wire_hash_preimage(views.take(0)));
    }
    while k < n
        invariant
            n == bundles@.len(),
            views == wire_views(bundles@),
            k <= n,
            pre@ =~= wire_hash_preimage(views.take(k as int)),
        decreases n - k,
    {
        let id_str = bundles[k].id.as_str();
        let id_bytes = id_str.as_bytes();
        let mut j: usize = 0;
        let m = id_bytes.len();
        let ghost mid = pre@;
        while j < m
            invariant
                m == id_bytes@.len(),
                j <= m,
                pre@ =~= mid + id_bytes@.take(j as int),
            decreases m - j,
        {
            pre.push(id_bytes[j]);
            proof {
                assert(pre@ =~= mid + id_bytes@.take(j as int + 1));
            }
            j = j + 1;
        }
        let tip_bytes = u64_le_bytes(bundles[k].tip);
        crate::encoding::append_bytes(&mut pre, &tip_bytes);
        proof {
            assert(id_bytes@.take(m as int) =~= id_bytes@);
            assert(id_str@ == views[k as int].id);
            assert(id_bytes@ == id_str.spec_bytes());
            assert(id_bytes@ == encode_utf8(views[k as int].id));
            assert(views.take(k as int + 1).drop_last() =~= views.take(k as int));
            assert(views.take(k as int + 1).last() == views[k as int]);
            assert(pre@ =~= wire_hash_preimage(views.take(k as int + 1)));
        }
        k = k + 1;
    }
    proof {
        assert(views.take(n as int) =~= views);
    }
    let digest = sha256(&pre);
    crate::encoding::hex_lower(&digest)
}

/// The fallback ordering of wire bundles: by tip ascending, ties broken by
/// the hashed id.
pub open spec fn fallback_leq(a: WireBundleView, b: WireBundleView) -> bool {
    a.tip < b.tip || (a.tip == b.tip && str_hash64(a.id) <= str_hash64(b.id))
}

/// Ordered under the fallback key.
pub open spec fn fallback_sorted(s: Seq<WireBundleView>) -> bool {
    forall|i: int, j: int| 0 <= i < j < s.len() ==> fallback_leq(s[i], s[j])
}

/// The exec form of the fallback ordering.
fn fallback_le(a: &WireBundle, b: &WireBundle) -> (r: bool)
    ensures
        r == fallback_leq(a@, b@),
{
    a.tip < b.tip || (a.tip == b.tip && hash_str(a.id.as_str()) <= hash_str(b.id.as_str()))
}

/// Sorts wire bundles by `(tip ascending, hashed id)` by insertion,
/// preserving the multiset of bundles: the ordering the engine falls back
/// to when the full auction cannot run.
pub fn fallback_order(input: &Vec<WireBundle>) -> (r: Vec<WireBundle>)
    ensures
        fallback_sorted(wire_views(r@)),
        wire_views(r@).to_multiset() == wire_views(input@).to_multiset(),
{
    broadcast use vstd::seq_lib::group_to_multiset_ensures;

    let n = input.len();
    let mut out: Vec<WireBundle> = Vec::new();
    let mut k: usize = 0;
    while k < n
        invariant
            n == input@.len(),
            k <= n,
            fallback_sorted(wire_views(out@)),
            wire_views(out@).to_multiset() == wire_views(input@.take(k as int)).to_multiset(),
        decreases n - k,
    {
        broadcast use vstd::seq_lib::group_to_multiset_ensures;

        let ghost pre = wire_views(out@);
        let b = input[k].clone();

        let stop = out.len();
        let mut p: usize = 0;
        while p < stop
            invariant
                stop == out@.len(),
                pre == wire_views(out@),
                p <= stop,
                forall|j: int| 0 <= j < p ==> fallback_leq(#[trigger] pre[j], b@),
            ensures
                stop == out@.len(),
                pre == wire_views(out@),
                p <= stop,
                forall|j: int| 0 <= j < p ==> fallback_leq(#[trigger] pre[j], b@),
                p < stop ==> !fallback_leq(pre[p as int], b@),
            decreases stop - p,
        {
            if !fallback_le(&out[p], &b) {
                break;
            }
            p = p + 1;
        }

        out.insert(p, b);
        proof {
            let newv = wire_views(out@);
            assert(newv =~= pre.insert(p as int, b@));
            pre.insert_ensures(p as int, b@);
            lemma_wire_insert_to_multiset(pre, p as int, b@);
            assert forall|i: int, j: int| 0 <= i < j < newv.len() implies fallback_leq(
                newv[i],
                newv[j],
            ) by {
                if j < p {
                    assert(newv[i] == pre[i] && newv[j] == pre[j]);
                } else if i > p {
                    assert(newv[i] == pre[i - 1] && newv[j] == pre[j - 1]);
                } else if i < p && j == p {
                    assert(newv[i] == pre[i] && newv[j] == b@);
                } else if i == p {
                    assert(newv[i] == b@ && newv[j] == pre[j - 1]);
                    assert((p as int) < pre.len() && !fallback_leq(pre[p as int], b@));
                    assert(fallback_leq(b@, pre[p as int]));
                    if j - 1 > p {
                        assert(fallback_leq(pre[p as int], pre[j - 1]));
                    }
                    assert(fallback_leq(b@, pre[j - 1]));
                } else {
                    assert(newv[i] == pre[i] && newv[j] == pre[j - 1]);
                    assert(0 <= i < j - 1 < pre.len());
                    assert(fallback_leq(pre[i], pre[j - 1]));
                }
            }
            assert(wire_views(input@.take(k as int + 1)) =~= wire_views(input@.take(k as int))
                .push(b@));
            assert(wire_views(input@.take(k as int + 1)).to_multiset() =~= wire_views(
                input@.take(k as int),
            ).to_multiset().insert(b@));
        }
        k = k + 1;
    }
    proof {
        assert(input@.take(n as int) =~= input@);
    }
    out
}

/// Inserting an element anywhere in a sequence adds exactly that element to
/// its multiset.
proof fn lemma_wire_insert_to_multiset(s: Seq<WireBundleView>, i: int, v: WireBundleView)
    requires
        0 <= i <= s.len(),
    ensures
        s.insert(i, v).to_multiset() == s.to_multiset().insert(v),
{
    broadcast use vstd::seq_lib::group_to_multiset_ensures;
    broadcast use vstd::multiset::group_multiset_axioms;

    let pre = s.subrange(0, i);
    let post = s.subrange(i, s.len() as int);
    assert(s.insert(i, v) == pre.push(v) + post);
    vstd::seq_lib::lemma_multiset_commutative(pre.push(v), post);
    assert(pre.push(v).to_multiset() =~= pre.to_multiset().insert(v));
    assert(s =~= pre + post);
    vstd::seq_lib::lemma_multiset_commutative(pre, post);
    assert(s.insert(i, v).to_multiset() =~= s.to_multiset().insert(v));
}

/// Builds the ordered block for a window: the bundles as given, hashed
/// deterministically.
pub fn build_ordered_block(window_id: u64, ordered_bundles: Vec<WireBundle>) -> (r: OrderedBlock)
    ensures
        r.window_id == window_id,
        wire_views(r.ordered_bundles@) == wire_views(ordered_bundles@),
        r.ordered_hash@ == hex_chars(
            sha256_of(wire_hash_preimage(wire_views(ordered_bundles@))),
        ),
{
    let ordered_hash = create_simple_hash(&ordered_bundles);
    OrderedBlock { window_id, ordered_bundles, ordered_hash }
}

} // verus!
