//! The block assembler: packs auction winners into a block under a
//! transaction-count limit and a compute-unit budget, skipping whatever does
//! not fit, and stamps the block with a hash over its timestamp, its
//! transactions and its bundle ids.

use vstd::prelude::*;

use crate::bundle::Bundle;
use crate::bundle::BundleView;
use crate::bundle::Transaction;
use crate::bundle::TxView;
use crate::bundle::sum_tips;
use crate::bundle::lemma_sum_tips_nonneg;
use crate::bundle::lemma_sum_tips_take_le;
use crate::encoding::append_bytes;
use crate::encoding::hex_chars;
use crate::encoding::hex_lower;
use crate::encoding::u64_le_bytes;
use crate::encoding::u64_le_seq;
use crate::encoding::uuid_ascii;
use crate::encoding::uuid_ascii_bytes;
use crate::encoding::uuid_chars;
use crate::encoding::uuid_string;
use crate::platform::fresh_id;
use crate::platform::now_unix_nanos;
use crate::platform::sha256;
use crate::platform::sha256_of;

verus! {

/// Lamports of fee charged per transaction, and compute units estimated per
/// transaction, in the prevailing simplified model.
pub const LAMPORTS_PER_TRANSACTION: u64 = 5000;

/// A candidate block: the winning bundles' transactions in selection order,
/// the bundles that fit, and the aggregates over them.
pub struct Block {
    pub slot: u64,
    pub parent_hash: Vec<u8>,
    pub blockhash: Vec<u8>,
    pub transactions: Vec<Transaction>,
    pub bundles: Vec<Bundle>,
    pub timestamp: u64,
    pub leader_pubkey: String,
    pub total_fees: u64,
    pub total_tips: u64,
}

/// Mathematical model of a block.
#[verifier::ext_equal]
pub struct BlockView {
    pub slot: u64,
    pub parent_hash: Seq<u8>,
    pub blockhash: Seq<u8>,
    pub transactions: Seq<TxView>,
    pub bundles: Seq<BundleView>,
    pub timestamp: u64,
    pub leader_pubkey: Seq<char>,
    pub total_fees: u64,
    pub total_tips: u64,
}

impl View for Block {
    type V = BlockView;

    open spec fn view(&self) -> BlockView {
        BlockView {
            slot: self.slot,
            parent_hash: self.parent_hash@,
            blockhash: self.blockhash@,
            transactions: self.transactions@.map_values(|t: Transaction| t@),
            bundles: self.bundles@.map_values(|b: Bundle| b@),
            timestamp: self.timestamp,
            leader_pubkey: self.leader_pubkey@,
            total_fees: self.total_fees,
            total_tips: self.total_tips,
        }
    }
}

/// Clones a vector of transactions; the models carry over unchanged.
fn clone_transactions(v: &Vec<Transaction>) -> (r: Vec<Transaction>)
    ensures
        r@.map_values(|t: Transaction| t@) == v@.map_values(|t: Transaction| t@),
{
    let r = v.clone();
    proof {
        assert forall|i: int| #![trigger r@[i]] 0 <= i < r@.len() implies r@.map_values(
            |t: Transaction| t@,
        )[i] == v@.map_values(|t: Transaction| t@)[i] by {
            assert(vstd::pervasive::cloned::<Transaction>(v@[i], r@[i]));
        }
        assert(r@.map_values(|t: Transaction| t@) =~= v@.map_values(|t: Transaction| t@));
    }
    r
}

/// Clones a vector of bundles; the models carry over unchanged.
fn clone_bundle_vec(v: &Vec<Bundle>) -> (r: Vec<Bundle>)
    ensures
        r@.map_values(|b: Bundle| b@) == v@.map_values(|b: Bundle| b@),
{
    let r = v.clone();
    proof {
        assert forall|i: int| #![trigger r@[i]] 0 <= i < r@.len() implies r@.map_values(
            |b: Bundle| b@,
        )[i] == v@.map_values(|b: Bundle| b@)[i] by {
            assert(vstd::pervasive::cloned::<Bundle>(v@[i], r@[i]));
        }
        assert(r@.map_values(|b: Bundle| b@) =~= v@.map_values(|b: Bundle| b@));
    }
    r
}

/// Clones a byte vector.
fn clone_bytes(v: &Vec<u8>) -> (r: Vec<u8>)
    ensures
        r@ == v@,
{
    let r = v.clone();
    proof {
        assert forall|i: int| #![trigger r@[i]] 0 <= i < r@.len() implies r@[i] == v@[i] by {
            assert(vstd::pervasive::cloned::<u8>(v@[i], r@[i]));
        }
        assert(r@ =~= v@);
    }
    r
}

impl Clone for Block {
    fn clone(&self) -> (r: Self)
        ensures
            r@ == self@,
    {
        let r = Block {
            slot: self.slot,
            parent_hash: clone_bytes(&self.parent_hash),
            blockhash: clone_bytes(&self.blockhash),
            transactions: clone_transactions(&self.transactions),
            bundles: clone_bundle_vec(&self.bundles),
            timestamp: self.timestamp,
            leader_pubkey: self.leader_pubkey.clone(),
            total_fees: self.total_fees,
            total_tips: self.total_tips,
        };
        proof {
            assert(r@ =~= self@);
        }
        r
    }
}

/// The slot's pre-committed frame: where the block goes and what it may
/// spend.
pub struct BlockTemplate {
    pub slot: u64,
    pub parent_hash: Vec<u8>,
    pub leader_pubkey: String,
    pub max_transactions: usize,
    pub max_compute_units: u64,
}

/// The assembler's configuration.
pub struct BlockAssembler {
    pub current_slot: u64,
    pub leader_pubkey: String,
    pub max_transactions_per_block: usize,
    pub max_compute_units_per_block: u64,
}

/// The transactions of a sequence of bundles, concatenated in order.
pub open spec fn flat_txs(s: Seq<BundleView>) -> Seq<TxView>
    decreases s.len(),
{
    if s.len() == 0 {
        Seq::empty()
    } else {
        flat_txs(s.drop_last()) + s.last().transactions
    }
}

/// A concatenation of byte strings.
pub open spec fn byte_seqs_flat(s: Seq<Seq<u8>>) -> Seq<u8>
    decreases s.len(),
{
    if s.len() == 0 {
        Seq::empty()
    } else {
        byte_seqs_flat(s.drop_last()) + s.last()
    }
}

/// What the block hash is computed over: the timestamp in little-endian
/// bytes, then each transaction's serialized bytes in order, then each
/// packed bundle's written id in order.
pub open spec fn block_hash_preimage(timestamp: u64, txs: Seq<TxView>, ids: Seq<u128>) -> Seq<u8> {
    u64_le_seq(timestamp) + byte_seqs_flat(txs.map_values(|t: TxView| t.data)) + byte_seqs_flat(
        ids.map_values(|id: u128| uuid_ascii_bytes(id)),
    )
}

/// The greedy packing: walk the winners in order, keeping running totals of
/// transactions and compute units, and take each bundle that fits under both
/// limits; a bundle that does not fit is skipped, not a stopping point.
pub open spec fn pack_from(
    ws: Seq<BundleView>,
    i: int,
    cur_tx: int,
    cur_cu: int,
    max_tx: int,
    max_cu: int,
) -> Seq<BundleView>
    decreases ws.len() - i,
{
    if i < 0 || i >= ws.len() {
        Seq::empty()
    } else {
        let b = ws[i];
        let btx = b.transactions.len() as int;
        let bcu = btx * (LAMPORTS_PER_TRANSACTION as int);
        if cur_tx + btx > max_tx || cur_cu + bcu > max_cu {
            pack_from(ws, i + 1, cur_tx, cur_cu, max_tx, max_cu)
        } else {
            seq![b] + pack_from(ws, i + 1, cur_tx + btx, cur_cu + bcu, max_tx, max_cu)
        }
    }
}

/// The bundles the assembler packs from `ws` under the two limits.
pub open spec fn spec_pack(ws: Seq<BundleView>, max_tx: int, max_cu: int) -> Seq<BundleView> {
    pack_from(ws, 0, 0, 0, max_tx, max_cu)
}


/// The packed bundles never carry more tip than the winners they were
/// chosen from, so a bound on the winners' total is a bound on the block's.
pub proof fn lemma_pack_tips_le(ws: Seq<BundleView>, i: int, cur_tx: int, cur_cu: int, max_tx: int, max_cu: int)
    requires
        0 <= i <= ws.len(),
    ensures
        sum_tips(pack_from(ws, i, cur_tx, cur_cu, max_tx, max_cu)) <= sum_tips(ws.skip(i)),
        (i == 0 && cur_tx == 0 && cur_cu == 0) ==> sum_tips(spec_pack(ws, max_tx, max_cu))
            <= sum_tips(ws),
    decreases ws.len() - i,
{
    if i == ws.len() {
        assert(ws.skip(i) =~= Seq::<BundleView>::empty());
    } else {
        let b = ws[i];
        let btx = b.transactions.len() as int;
        let bcu = btx * (LAMPORTS_PER_TRANSACTION as int);
        assert(ws.skip(i) =~= seq![b] + ws.skip(i + 1));
        lemma_sum_tips_concat(seq![b], ws.skip(i + 1));
        assert(sum_tips(seq![b]) == b.tip_lamports) by {
            let single = seq![b];
            assert(single.drop_last() =~= Seq::<BundleView>::empty());
            assert(single.last() == b);
            assert(sum_tips(Seq::<BundleView>::empty()) == 0);
        }
        if cur_tx + btx > max_tx || cur_cu + bcu > max_cu {
            lemma_pack_tips_le(ws, i + 1, cur_tx, cur_cu, max_tx, max_cu);
            lemma_sum_tips_nonneg(seq![b]);
        } else {
            lemma_pack_tips_le(ws, i + 1, cur_tx + btx, cur_cu + bcu, max_tx, max_cu);
            let rest = pack_from(ws, i + 1, cur_tx + btx, cur_cu + bcu, max_tx, max_cu);
            assert(pack_from(ws, i, cur_tx, cur_cu, max_tx, max_cu) == seq![b] + rest);
            lemma_sum_tips_concat(seq![b], rest);
        }
    }
    if i == 0 {
        assert(ws.skip(0) =~= ws);
    }
}

/// Tips add up over concatenation.
pub proof fn lemma_sum_tips_concat(a: Seq<BundleView>, b: Seq<BundleView>)
    ensures
        sum_tips(a + b) == sum_tips(a) + sum_tips(b),
    decreases b.len(),
{
    if b.len() == 0 {
        assert(a + b =~= a);
    } else {
        assert((a + b).drop_last() =~= a + b.drop_last());
        assert((a + b).last() == b.last());
        lemma_sum_tips_concat(a, b.drop_last());
    }
}

/// Appends clones of the given transactions; the models concatenate.
fn append_tx_clones(out: &mut Vec<Transaction>, src: &Vec<Transaction>)
    ensures
        final(out)@.map_values(|t: Transaction| t@) == old(out)@.map_values(|t: Transaction| t@)
            + src@.map_values(|t: Transaction| t@),
{
    let ghost src_views = src@.map_values(|t: Transaction| t@);
    let n = src.len();
    let mut k: usize = 0;
    while k < n
        invariant
            n == src@.len(),
            src_views == src@.map_values(|t: Transaction| t@),
            k <= n,
            out@.map_values(|t: Transaction| t@) =~= old(out)@.map_values(|t: Transaction| t@)
                + src_views.take(k as int),
        decreases n - k,
    {
        let ghost prev = out@;
        out.push(src[k].clone());
        proof {
            assert(out@.map_values(|t: Transaction| t@) =~= prev.map_values(
                |t: Transaction| t@,
            ).push(src_views[k as int]));
            assert(src_views.take(k as int + 1) =~= src_views.take(k as int).push(
                src_views[k as int],
            ));
            assert(out@.map_values(|t: Transaction| t@) =~= old(out)@.map_values(
                |t: Transaction| t@,
            ) + src_views.take(k as int + 1));
        }
        k = k + 1;
    }
    proof {
        assert(src_views.take(n as int) =~= src_views);
        assert(final(out)@.map_values(|t: Transaction| t@) =~= old(out)@.map_values(
            |t: Transaction| t@,
        ) + src_views);
    }
}

/// Computes the block hash: SHA-256 over the timestamp's little-endian
/// bytes, each transaction's serialized bytes in order, and each bundle id's
/// written form in order.
pub fn compute_block_hash(
    transactions: &Vec<Transaction>,
    bundle_ids: &Vec<u128>,
    timestamp: u64,
) -> (r: Vec<u8>)
    ensures
        r@ == sha256_of(
            block_hash_preimage(
                timestamp,
                transactions@.map_values(|t: Transaction| t@),
                bundle_ids@,
            ),
        ),
        r@.len() == 32,
{
    let ghost tviews = transactions@.map_values(|t: Transaction| t@);
    let ghost datas = tviews.map_values(|t: TxView| t.data);
    let mut pre = u64_le_bytes(timestamp);
    let n = transactions.len();
    let mut k: usize = 0;
    proof {
        assert(datas.take(0) =~= Seq::<Seq<u8>>::empty());
        assert(pre@ =~= u64_le_seq(timestamp) + byte_seqs_flat(datas.take(0)));
    }
    while k < n
        invariant
            n == transactions@.len(),
            tviews == transactions@.map_values(|t: Transaction| t@),
            datas == tviews.map_values(|t: TxView| t.data),
            k <= n,
            pre@ =~= u64_le_seq(timestamp) + byte_seqs_flat(datas.take(k as int)),
        decreases n - k,
    {
        append_bytes(&mut pre, &transactions[k].data);
        proof {
            assert(datas.take(k as int + 1).drop_last() =~= datas.take(k as int));
            assert(datas.take(k as int + 1).last() == datas[k as int]);
            assert(datas[k as int] == tviews[k as int].data);
            assert(pre@ =~= u64_le_seq(timestamp) + byte_seqs_flat(datas.take(k as int + 1)));
        }
        k = k + 1;
    }
    proof {
        assert(datas.take(n as int) =~= datas);
    }

    let ghost idbs = bundle_ids@.map_values(|id: u128| uuid_ascii_bytes(id));
    let ghost mid = pre@;
    let m = bundle_ids.len();
    let mut j: usize = 0;
    proof {
        assert(idbs.take(0) =~= Seq::<Seq<u8>>::empty());
        assert(pre@ =~= mid + byte_seqs_flat(idbs.take(0)));
    }
    while j < m
        invariant
            m == bundle_ids@.len(),
            idbs == bundle_ids@.map_values(|id: u128| uuid_ascii_bytes(id)),
            j <= m,
            pre@ =~= mid + byte_seqs_flat(idbs.take(j as int)),
        decreases m - j,
    {
        let idb = uuid_ascii(bundle_ids[j]);
        append_bytes(&mut pre, &idb);
        proof {
            assert(idbs.take(j as int + 1).drop_last() =~= idbs.take(j as int));
            assert(idbs.take(j as int + 1).last() == idbs[j as int]);
            assert(pre@ =~= mid + byte_seqs_flat(idbs.take(j as int + 1)));
        }
        j = j + 1;
    }
    proof {
        assert(idbs.take(m as int) =~= idbs);
        assert(pre@ =~= block_hash_preimage(timestamp, tviews, bundle_ids@));
    }
    sha256(&pre)
}

/// Seconds since the Unix epoch, read from the wall clock.
fn unix_timestamp() -> u64 {
    let nanos = now_unix_nanos();
    let secs = nanos / 1_000_000_000;
    if secs > u64::MAX as u128 {
        u64::MAX
    } else {
        secs as u64
    }
}



/// Appending transactions on the right keeps every present transaction
/// present.
proof fn lemma_tx_present_extend(txs: Seq<TxView>, more: Seq<TxView>, t: TxView)
    requires
        tx_present(txs, t),
    ensures
        tx_present(txs + more, t),
{
    let k = choose|k: int| 0 <= k < txs.len() && txs[k] == t;
    assert((txs + more)[k] == t);
}

/// Every transaction of every bundle in a sequence stands among the
/// sequence's concatenated transactions: the packed block misses nothing.
pub proof fn lemma_flat_txs_cover(s: Seq<BundleView>)
    ensures
        bundles_covered(flat_txs(s), s),
    decreases s.len(),
{
    if s.len() > 0 {
        lemma_flat_txs_cover(s.drop_last());
        let whole = flat_txs(s);
        let front = flat_txs(s.drop_last());
        let last = s.last();
        assert(whole == front + last.transactions);
        assert forall|i: int, j: int|
            0 <= i < s.len() && 0 <= j < (#[trigger] s[i]).transactions.len() implies tx_present(
            whole,
            #[trigger] s[i].transactions[j],
        ) by {
            if i < s.len() - 1 {
                assert(s.drop_last()[i] == s[i]);
                assert(tx_present(front, s[i].transactions[j]));
                lemma_tx_present_extend(front, last.transactions, s[i].transactions[j]);
            } else {
                assert(s[i] == last);
                assert(whole[front.len() + j] == last.transactions[j]);
            }
        }
    }
}

/// Why a block fails validation.
#[derive(Debug)]
pub enum BlockValidationError {
    TooManyTransactions,
    TooManyComputeUnits,
    MissingBundleTransaction,
    InvalidStructure(String),
}

impl BlockValidationError {
    /// The text of the error, as a model.
    pub open spec fn message_view(&self) -> Seq<char> {
        match self {
            BlockValidationError::TooManyTransactions => "Block contains too many transactions"@,
            BlockValidationError::TooManyComputeUnits => "Block exceeds compute unit limit"@,
            BlockValidationError::MissingBundleTransaction => "Missing transaction from bundle"@,
            BlockValidationError::InvalidStructure(d) => "Invalid block structure: "@ + d@,
        }
    }

    /// The human-readable text of the error.
    pub fn message(&self) -> (r: String)
        ensures
            r@ == self.message_view(),
    {
        match self {
            BlockValidationError::TooManyTransactions => {
                "Block contains too many transactions".to_owned()
            },
            BlockValidationError::TooManyComputeUnits => {
                "Block exceeds compute unit limit".to_owned()
            },
            BlockValidationError::MissingBundleTransaction => {
                "Missing transaction from bundle".to_owned()
            },
            BlockValidationError::InvalidStructure(detail) => {
                let mut m = "Invalid block structure: ".to_owned();
                m.append(detail.as_str());
                m
            },
        }
    }
}

/// Whether two byte vectors hold the same bytes.
fn bytes_eq(a: &Vec<u8>, b: &Vec<u8>) -> (r: bool)
    ensures
        r == (a@ == b@),
{
    if a.len() != b.len() {
        proof {
            assert(a@ != b@);
        }
        return false;
    }
    let n = a.len();
    let mut k: usize = 0;
    while k < n
        invariant
            n == a@.len() && n == b@.len(),
            k <= n,
            forall|j: int| 0 <= j < k ==> a@[j] == b@[j],
        decreases n - k,
    {
        if a[k] != b[k] {
            proof {
                assert(a@[k as int] != b@[k as int]);
            }
            return false;
        }
        k = k + 1;
    }
    proof {
        assert(a@ =~= b@);
    }
    true
}

/// Whether two transactions are the same, signature and bytes.
fn tx_eq(a: &Transaction, b: &Transaction) -> (r: bool)
    ensures
        r == (a@ == b@),
{
    let same = a.signature == b.signature && bytes_eq(&a.data, &b.data);
    proof {
        if same {
            assert(a@ =~= b@);
        }
    }
    same
}

/// Whether the transaction stands somewhere in the sequence.
pub open spec fn tx_present(txs: Seq<TxView>, t: TxView) -> bool {
    exists|k: int| 0 <= k < txs.len() && txs[k] == t
}

/// Whether every transaction of every listed bundle stands among the given
/// transactions.
pub open spec fn bundles_covered(txs: Seq<TxView>, bundles: Seq<BundleView>) -> bool {
    forall|i: int, j: int|
        0 <= i < bundles.len() && 0 <= j < (#[trigger] bundles[i]).transactions.len()
            ==> tx_present(txs, #[trigger] bundles[i].transactions[j])
}

/// Whether the transaction stands in the vector.
fn contains_tx(txs: &Vec<Transaction>, t: &Transaction) -> (r: bool)
    ensures
        r == tx_present(txs@.map_values(|x: Transaction| x@), t@),
{
    let ghost views = txs@.map_values(|x: Transaction| x@);
    let n = txs.len();
    let mut k: usize = 0;
    while k < n
        invariant
            n == txs@.len(),
            views == txs@.map_values(|x: Transaction| x@),
            k <= n,
            forall|j: int| 0 <= j < k ==> views[j] != t@,
        decreases n - k,
    {
        if tx_eq(&txs[k], t) {
            proof {
                assert(views[k as int] == t@);
            }
            return true;
        }
        k = k + 1;
    }
    false
}

impl BlockAssembler {
    pub fn new(
        leader_pubkey: String,
        max_transactions_per_block: usize,
        max_compute_units_per_block: u64,
    ) -> (r: BlockAssembler)
        ensures
            r.current_slot == 0,
            r.leader_pubkey@ == leader_pubkey@,
            r.max_transactions_per_block == max_transactions_per_block,
            r.max_compute_units_per_block == max_compute_units_per_block,
    {
        BlockAssembler {
            current_slot: 0,
            leader_pubkey,
            max_transactions_per_block,
            max_compute_units_per_block,
        }
    }

    /// A template for the given slot, carrying the assembler's limits.
    pub fn create_block_template(&self, slot: u64, parent_hash: Vec<u8>) -> (r: BlockTemplate)
        ensures
            r.slot == slot,
            r.parent_hash@ == parent_hash@,
            r.leader_pubkey@ == self.leader_pubkey@,
            r.max_transactions == self.max_transactions_per_block,
            r.max_compute_units == self.max_compute_units_per_block,
    {
        BlockTemplate {
            slot,
            parent_hash,
            leader_pubkey: self.leader_pubkey.clone(),
            max_transactions: self.max_transactions_per_block,
            max_compute_units: self.max_compute_units_per_block,
        }
    }

    /// The estimated compute units of one bundle: its transaction count
    /// times the per-transaction estimate.
    pub fn estimate_bundle_compute_units(&self, bundle: &Bundle) -> (r: u64)
        requires
            bundle@.structurally_valid(),
        ensures
            r == bundle@.transactions.len() * LAMPORTS_PER_TRANSACTION,
    {
        (bundle.transactions.len() as u64) * LAMPORTS_PER_TRANSACTION
    }

    /// Packs the winners into a block, walking them in order and taking each
    /// bundle that fits under the transaction-count and compute-unit limits;
    /// one that does not fit is skipped silently and the walk goes on. The
    /// block's transactions are the packed bundles' transactions in order;
    /// the totals and the hash are exactly as stated. Never fails on valid
    /// bundles.
    pub fn assemble_block(&self, template: BlockTemplate, winning_bundles: Vec<Bundle>) -> (r:
        Block)
        requires
            forall|i: int|
                0 <= i < winning_bundles@.len() ==> (#[trigger] winning_bundles@[i]@)
                    .structurally_valid(),
            sum_tips(
                spec_pack(
                    winning_bundles@.map_values(|b: Bundle| b@),
                    template.max_transactions as int,
                    template.max_compute_units as int,
                ),
            ) <= u64::MAX,
        ensures
            r@.bundles == spec_pack(
                winning_bundles@.map_values(|b: Bundle| b@),
                template.max_transactions as int,
                template.max_compute_units as int,
            ),
            r@.transactions == flat_txs(r@.bundles),
            r@.transactions.len() <= template.max_transactions,
            r@.transactions.len() * LAMPORTS_PER_TRANSACTION <= template.max_compute_units,
            r.total_tips == sum_tips(r@.bundles),
            r.total_fees == r@.transactions.len() * LAMPORTS_PER_TRANSACTION,
            r.slot == template.slot,
            r@.parent_hash == template.parent_hash@,
            r@.leader_pubkey == template.leader_pubkey@,
            r@.blockhash == sha256_of(
                block_hash_preimage(
                    r.timestamp,
                    r@.transactions,
                    r@.bundles.map_values(|b: BundleView| b.id),
                ),
            ),
            r@.blockhash.len() == 32,
    {
        let ghost ws = winning_bundles@.map_values(|b: Bundle| b@);
        let ghost mt = template.max_transactions as int;
        let ghost mc = template.max_compute_units as int;
        let ghost packed = spec_pack(ws, mt, mc);

        let mut all_transactions: Vec<Transaction> = Vec::new();
        let mut included_bundles: Vec<Bundle> = Vec::new();
        let mut bundle_ids: Vec<u128> = Vec::new();
        let mut total_tips: u64 = 0;
        let mut total_compute_units: u64 = 0;

        let n = winning_bundles.len();
        let mut k: usize = 0;
        while k < n
            invariant
                n == winning_bundles@.len(),
                ws == winning_bundles@.map_values(|b: Bundle| b@),
                mt == template.max_transactions as int,
                mc == template.max_compute_units as int,
                packed == spec_pack(ws, mt, mc),
                sum_tips(packed) <= u64::MAX,
                forall|i: int| 0 <= i < n ==> (#[trigger] ws[i]).structurally_valid(),
                k <= n,
                included_bundles@.map_values(|b: Bundle| b@) + pack_from(
                    ws,
                    k as int,
                    all_transactions@.len() as int,
                    total_compute_units as int,
                    mt,
                    mc,
                ) =~= packed,
                all_transactions@.map_values(|t: Transaction| t@) =~= flat_txs(
                    included_bundles@.map_values(|b: Bundle| b@),
                ),
                bundle_ids@ =~= included_bundles@.map_values(|b: Bundle| b@).map_values(
                    |b: BundleView| b.id,
                ),
                all_transactions@.len() <= template.max_transactions,
                total_compute_units == all_transactions@.len() * LAMPORTS_PER_TRANSACTION,
                total_compute_units <= template.max_compute_units,
                total_tips == sum_tips(included_bundles@.map_values(|b: Bundle| b@)),
            decreases n - k,
        {
            let ghost incl = included_bundles@.map_values(|b: Bundle| b@);
            let ghost rest = pack_from(
                ws,
                k as int,
                all_transactions@.len() as int,
                total_compute_units as int,
                mt,
                mc,
            );
            let bundle = &winning_bundles[k];
            let btx = bundle.transactions.len();
            proof {
                assert(ws[k as int] == winning_bundles@[k as int]@);
                assert(1 <= btx <= 5);
            }
            let bundle_cu = (btx as u64) * LAMPORTS_PER_TRANSACTION;
            let fits_tx = btx <= template.max_transactions - all_transactions.len();
            let fits_cu = !fits_tx || bundle_cu
                <= template.max_compute_units - total_compute_units;
            if fits_tx && fits_cu {
                proof {
                    assert(rest =~= seq![ws[k as int]] + pack_from(
                        ws,
                        k as int + 1,
                        all_transactions@.len() as int + btx as int,
                        total_compute_units as int + bundle_cu as int,
                        mt,
                        mc,
                    ));
                    // The tip fits in the running total.
                    lemma_sum_tips_concat(incl, rest);
                    assert(sum_tips(rest) == sum_tips(seq![ws[k as int]]) + sum_tips(
                        rest.drop_first(),
                    )) by {
                        assert(rest.drop_first() =~= pack_from(
                            ws,
                            k as int + 1,
                            all_transactions@.len() as int + btx as int,
                            total_compute_units as int + bundle_cu as int,
                            mt,
                            mc,
                        ));
                        lemma_sum_tips_concat(seq![ws[k as int]], rest.drop_first());
                        assert(seq![ws[k as int]] + rest.drop_first() =~= rest);
                    }
                    lemma_sum_tips_nonneg(rest.drop_first());
                    assert(sum_tips(seq![ws[k as int]]) == ws[k as int].tip_lamports) by {
                        let single = seq![ws[k as int]];
                        assert(single.drop_last() =~= Seq::<BundleView>::empty());
                        assert(single.last() == ws[k as int]);
                        assert(sum_tips(Seq::<BundleView>::empty()) == 0);
                    }
                    assert(total_tips + bundle.tip_lamports <= sum_tips(packed));
                }
                append_tx_clones(&mut all_transactions, &bundle.transactions);
                total_tips = total_tips + bundle.tip_lamports;
                total_compute_units = total_compute_units + bundle_cu;
                bundle_ids.push(bundle.id);
                included_bundles.push(bundle.clone());
                proof {
                    let incl2 = included_bundles@.map_values(|b: Bundle| b@);
                    assert(incl2 =~= incl.push(ws[k as int]));
                    assert(incl2.drop_last() =~= incl);
                    assert(incl2.last() == ws[k as int]);
                    assert(flat_txs(incl2) =~= flat_txs(incl) + ws[k as int].transactions);
                    assert(all_transactions@.map_values(|t: Transaction| t@) =~= flat_txs(incl2));
                    assert(sum_tips(incl2) == sum_tips(incl) + ws[k as int].tip_lamports);
                    assert(incl2.map_values(|b: BundleView| b.id) =~= incl.map_values(
                        |b: BundleView| b.id,
                    ).push(ws[k as int].id));
                    assert(bundle_ids@ =~= incl2.map_values(|b: BundleView| b.id));
                    assert(incl2 + pack_from(
                        ws,
                        k as int + 1,
                        all_transactions@.len() as int,
                        total_compute_units as int,
                        mt,
                        mc,
                    ) =~= packed);
                }
            } else {
                proof {
                    assert(rest =~= pack_from(
                        ws,
                        k as int + 1,
                        all_transactions@.len() as int,
                        total_compute_units as int,
                        mt,
                        mc,
                    ));
                }
            }
            k = k + 1;
        }
        proof {
            assert(pack_from(
                ws,
                n as int,
                all_transactions@.len() as int,
                total_compute_units as int,
                mt,
                mc,
            ) =~= Seq::<BundleView>::empty());
            assert(included_bundles@.map_values(|b: Bundle| b@) =~= packed);
        }

        let timestamp = unix_timestamp();
        let blockhash = compute_block_hash(&all_transactions, &bundle_ids, timestamp);
        let total_fees = total_compute_units;
        Block {
            slot: template.slot,
            parent_hash: template.parent_hash,
            blockhash,
            transactions: all_transactions,
            bundles: included_bundles,
            timestamp,
            leader_pubkey: template.leader_pubkey,
            total_fees,
            total_tips,
        }
    }

    /// Re-checks a block against this assembler's limits: the transaction
    /// count, the estimated compute units, and that every transaction of
    /// every listed bundle stands among the block's transactions. The first
    /// failing check names the error.
    pub fn validate_block(&self, block: &Block) -> (r: Result<(), BlockValidationError>)
        ensures
            r is Ok <==> (block@.transactions.len() <= self.max_transactions_per_block
                && block@.transactions.len() * LAMPORTS_PER_TRANSACTION
                <= self.max_compute_units_per_block && bundles_covered(
                block@.transactions,
                block@.bundles,
            )),
            (r matches Err(e) && e is TooManyTransactions) <==> block@.transactions.len()
                > self.max_transactions_per_block,
            (r matches Err(e) && e is TooManyComputeUnits) <==> (block@.transactions.len()
                <= self.max_transactions_per_block && block@.transactions.len()
                * LAMPORTS_PER_TRANSACTION > self.max_compute_units_per_block),
            (r matches Err(e) && e is MissingBundleTransaction) <==> (block@.transactions.len()
                <= self.max_transactions_per_block && block@.transactions.len()
                * LAMPORTS_PER_TRANSACTION <= self.max_compute_units_per_block
                && !bundles_covered(block@.transactions, block@.bundles)),
    {
        let ghost txs = block@.transactions;
        let ghost bviews = block@.bundles;
        if block.transactions.len() > self.max_transactions_per_block {
            return Err(BlockValidationError::TooManyTransactions);
        }
        let over_budget = (block.transactions.len() as u64)
            > self.max_compute_units_per_block / LAMPORTS_PER_TRANSACTION;
        proof {
            let len = block@.transactions.len() as int;
            let mc = self.max_compute_units_per_block as int;
            let per = LAMPORTS_PER_TRANSACTION as int;
            assert((len * per > mc) <==> (len > mc / per)) by (nonlinear_arith)
                requires
                    len >= 0,
                    mc >= 0,
                    per == 5000,
            ;
        }
        if over_budget {
            return Err(BlockValidationError::TooManyComputeUnits);
        }
        if !block_covers_bundles(block) {
            return Err(BlockValidationError::MissingBundleTransaction);
        }
        Ok(())
    }
}

/// Whether every transaction of every listed bundle stands among the
/// block's transactions.
pub fn block_covers_bundles(block: &Block) -> (r: bool)
    ensures
        r == bundles_covered(block@.transactions, block@.bundles),
{
    let ghost txs = block@.transactions;
    let ghost bviews = block@.bundles;
    let nb = block.bundles.len();
    let mut i: usize = 0;
    while i < nb
        invariant
            nb == block.bundles@.len(),
            txs == block@.transactions,
            bviews == block@.bundles,
            i <= nb,
            forall|x: int, y: int|
                0 <= x < i && 0 <= y < (#[trigger] bviews[x]).transactions.len() ==> tx_present(
                    txs,
                    #[trigger] bviews[x].transactions[y],
                ),
        decreases nb - i,
    {
        let bt = block.bundles[i].transactions.len();
        let mut j: usize = 0;
        while j < bt
            invariant
                nb == block.bundles@.len(),
                txs == block@.transactions,
                bviews == block@.bundles,
                i < nb,
                bt == bviews[i as int].transactions.len(),
                j <= bt,
                forall|y: int|
                    0 <= y < j ==> tx_present(txs, #[trigger] bviews[i as int].transactions[y]),
            decreases bt - j,
        {
            if !contains_tx(&block.transactions, &block.bundles[i].transactions[j]) {
                proof {
                    assert(bviews[i as int].transactions[j as int] == block.bundles@[i as int]@
                        .transactions[j as int]);
                    assert(!tx_present(txs, bviews[i as int].transactions[j as int]));
                }
                return false;
            }
            j = j + 1;
        }
        i = i + 1;
    }
    true
}


/// Aggregate numbers of one block.
#[derive(Clone, Copy, Debug)]
pub struct BlockStats {
    pub slot: u64,
    pub bundle_count: usize,
    pub transaction_count: usize,
    pub total_fees: u64,
    pub total_tips: u64,
    pub avg_tip_per_bundle: u64,
    pub timestamp: u64,
}

impl BlockAssembler {
    /// The block's aggregate numbers, with the truncating per-bundle average
    /// tip (zero when no bundle is in the block).
    pub fn get_block_stats(&self, block: &Block) -> (r: BlockStats)
        ensures
            r.slot == block.slot,
            r.bundle_count == block@.bundles.len(),
            r.transaction_count == block@.transactions.len(),
            r.total_fees == block.total_fees,
            r.total_tips == block.total_tips,
            r.timestamp == block.timestamp,
            r.avg_tip_per_bundle == if block@.bundles.len() > 0 {
                block.total_tips as int / block@.bundles.len() as int
            } else {
                0
            },
    {
        let bundle_count = block.bundles.len();
        let transaction_count = block.transactions.len();
        let avg_tip_per_bundle: u64 = if bundle_count > 0 {
            block.total_tips / (bundle_count as u64)
        } else {
            0
        };
        BlockStats {
            slot: block.slot,
            bundle_count,
            transaction_count,
            total_fees: block.total_fees,
            total_tips: block.total_tips,
            avg_tip_per_bundle,
            timestamp: block.timestamp,
        }
    }
}

/// A wire-friendly summary of an assembled block.
pub struct BlockSummary {
    pub block_id: String,
    pub total_fees: u64,
    pub bundle_ids: Vec<String>,
    pub transaction_count: usize,
    pub timestamp: u64,
    pub block_hash: String,
}

/// Thirty-two zero bytes: the placeholder parent hash.
fn zero_bytes32() -> (r: Vec<u8>)
    ensures
        r@ == Seq::new(32, |i: int| 0u8),
{
    let mut r: Vec<u8> = Vec::new();
    let mut k: usize = 0;
    while k < 32
        invariant
            k <= 32,
            r@.len() == k,
            forall|i: int| 0 <= i < k ==> r@[i] == 0u8,
        decreases 32 - k,
    {
        r.push(0);
        k = k + 1;
    }
    proof {
        assert(r@ =~= Seq::new(32, |i: int| 0u8));
    }
    r
}

/// Assembles a block from winning bundles without resource limits: every
/// bundle's transactions go in, in order; the fees equal the tips (the
/// simplified model conflates them here); the block hash is computed over
/// the timestamp, the transactions and the bundle ids; and a summary with
/// the written bundle ids and the hex block hash comes along. The slot,
/// parent hash and leader are placeholders for the caller to set.
pub fn assemble_block(winning_bundles: Vec<Bundle>) -> (r: (Block, BlockSummary))
    requires
        sum_tips(winning_bundles@.map_values(|b: Bundle| b@)) <= u64::MAX,
    ensures
        r.0@.bundles == winning_bundles@.map_values(|b: Bundle| b@),
        r.0@.transactions == flat_txs(winning_bundles@.map_values(|b: Bundle| b@)),
        r.0.total_fees == sum_tips(winning_bundles@.map_values(|b: Bundle| b@)),
        r.0.total_tips == r.0.total_fees,
        r.0.slot == 0,
        r.0@.leader_pubkey.len() == 0,
        r.0@.parent_hash == Seq::new(32, |i: int| 0u8),
        r.0@.blockhash == sha256_of(
            block_hash_preimage(
                r.0.timestamp,
                r.0@.transactions,
                r.0@.bundles.map_values(|b: BundleView| b.id),
            ),
        ),
        r.0@.blockhash.len() == 32,
        r.1.total_fees == r.0.total_fees,
        r.1.transaction_count == r.0@.transactions.len(),
        r.1.timestamp == r.0.timestamp,
        r.1.bundle_ids@.map_values(|s: String| s@) == winning_bundles@.map_values(
            |b: Bundle| b@,
        ).map_values(|b: BundleView| uuid_chars(b.id)),
        r.1.block_hash@ == hex_chars(r.0@.blockhash),
        exists|id: u128| r.1.block_id@ == uuid_chars(id),
    {
    let ghost ws = winning_bundles@.map_values(|b: Bundle| b@);
    let id_value = fresh_id();
    let block_id = uuid_string(id_value);
    proof {
        assert(block_id@ == uuid_chars(id_value));
    }
    let timestamp = unix_timestamp();

    let mut all_transactions: Vec<Transaction> = Vec::new();
    let mut total_fees: u64 = 0;
    let mut bundle_ids: Vec<String> = Vec::new();
    let mut id_values: Vec<u128> = Vec::new();

    let n = winning_bundles.len();
    let mut k: usize = 0;
    while k < n
        invariant
            n == winning_bundles@.len(),
            ws == winning_bundles@.map_values(|b: Bundle| b@),
            sum_tips(ws) <= u64::MAX,
            k <= n,
            all_transactions@.map_values(|t: Transaction| t@) =~= flat_txs(ws.take(k as int)),
            total_fees == sum_tips(ws.take(k as int)),
            id_values@ =~= ws.take(k as int).map_values(|b: BundleView| b.id),
            bundle_ids@.map_values(|s: String| s@) =~= ws.take(k as int).map_values(
                |b: BundleView| uuid_chars(b.id),
            ),
        decreases n - k,
    {
        proof {
            assert(ws.take(k as int + 1).drop_last() =~= ws.take(k as int));
            assert(ws.take(k as int + 1).last() == ws[k as int]);
            lemma_sum_tips_take_le(ws, k as int + 1);
            lemma_sum_tips_nonneg(ws.take(k as int));
        }
        let bundle = &winning_bundles[k];
        append_tx_clones(&mut all_transactions, &bundle.transactions);
        total_fees = total_fees + bundle.tip_lamports;
        id_values.push(bundle.id);
        let ghost ids_pre = bundle_ids@.map_values(|s: String| s@);
        bundle_ids.push(uuid_string(bundle.id));
        proof {
            assert(all_transactions@.map_values(|t: Transaction| t@) =~= flat_txs(
                ws.take(k as int + 1),
            ));
            assert(id_values@ =~= ws.take(k as int + 1).map_values(|b: BundleView| b.id));
            assert(bundle_ids@.map_values(|s: String| s@) =~= ids_pre.push(
                uuid_chars(ws[k as int].id),
            ));
            assert(bundle_ids@.map_values(|s: String| s@) =~= ws.take(k as int + 1).map_values(
                |b: BundleView| uuid_chars(b.id),
            ));
        }
        k = k + 1;
    }
    proof {
        assert(ws.take(n as int) =~= ws);
    }

    let block_hash = compute_block_hash(&all_transactions, &id_values, timestamp);
    let block_hash_string = hex_lower(&block_hash);
    let transaction_count = all_transactions.len();

    let block = Block {
        slot: 0,
        parent_hash: zero_bytes32(),
        blockhash: block_hash,
        transactions: all_transactions,
        bundles: winning_bundles,
        timestamp,
        leader_pubkey: String::new(),
        total_fees,
        total_tips: total_fees,
    };
    let summary = BlockSummary {
        block_id,
        total_fees,
        bundle_ids,
        transaction_count,
        timestamp,
        block_hash: block_hash_string,
    };
    (block, summary)
}

/// Assembles a block as `assemble_block` does, then stamps it with the
/// given slot, parent hash and leader.
pub fn assemble_block_with_params(
    winning_bundles: Vec<Bundle>,
    slot: u64,
    parent_hash: Vec<u8>,
    leader_pubkey: String,
) -> (r: (Block, BlockSummary))
    requires
        sum_tips(winning_bundles@.map_values(|b: Bundle| b@)) <= u64::MAX,
    ensures
        r.0@.bundles == winning_bundles@.map_values(|b: Bundle| b@),
        r.0@.transactions == flat_txs(winning_bundles@.map_values(|b: Bundle| b@)),
        r.0.total_fees == sum_tips(winning_bundles@.map_values(|b: Bundle| b@)),
        r.0.total_tips == r.0.total_fees,
        r.0.slot == slot,
        r.0@.parent_hash == parent_hash@,
        r.0@.leader_pubkey == leader_pubkey@,
        r.0@.blockhash == sha256_of(
            block_hash_preimage(
                r.0.timestamp,
                r.0@.transactions,
                r.0@.bundles.map_values(|b: BundleView| b.id),
            ),
        ),
        r.1.total_fees == r.0.total_fees,
        r.1.transaction_count == r.0@.transactions.len(),
        r.1.timestamp == r.0.timestamp,
        r.1.block_hash@ == hex_chars(r.0@.blockhash),
{
    let (block, summary) = assemble_block(winning_bundles);
    let mut block = block;
    block.slot = slot;
    block.parent_hash = parent_hash;
    block.leader_pubkey = leader_pubkey;
    (block, summary)
}

/// Clones a vector of blocks; the models carry over unchanged.
pub(crate) fn clone_blocks(v: &Vec<Block>) -> (r: Vec<Block>)
    ensures
        r@.map_values(|b: Block| b@) == v@.map_values(|b: Block| b@),
{
    let r = v.clone();
    proof {
        assert forall|i: int| #![trigger r@[i]] 0 <= i < r@.len() implies r@.map_values(
            |b: Block| b@,
        )[i] == v@.map_values(|b: Block| b@)[i] by {
            assert(vstd::pervasive::cloned::<Block>(v@[i], r@[i]));
        }
        assert(r@.map_values(|b: Block| b@) =~= v@.map_values(|b: Block| b@));
    }
    r
}

/// A validator endpoint for tests: it records what it is handed, or refuses
/// everything when told to fail.
pub struct MockValidatorClient {
    pub submitted_blocks: Vec<Block>,
    pub should_fail: bool,
}

impl MockValidatorClient {
    pub fn new() -> (r: MockValidatorClient)
        ensures
            r.submitted_blocks@.len() == 0,
            !r.should_fail,
    {
        MockValidatorClient { submitted_blocks: Vec::new(), should_fail: false }
    }

    pub fn set_failure_mode(&mut self, should_fail: bool)
        ensures
            final(self).should_fail == should_fail,
            final(self).submitted_blocks == old(self).submitted_blocks,
    {
        self.should_fail = should_fail;
    }

    /// Accepts and records the block, answering a fresh signature — unless
    /// failure mode is on, in which case nothing is recorded.
    pub fn submit_block(&mut self, block: Block) -> (r: Result<String, String>)
        ensures
            final(self).should_fail == old(self).should_fail,
            old(self).should_fail ==> (r matches Err(m) && m@
                == "Mock validator client set to fail"@) && final(self).submitted_blocks == old(self).submitted_blocks,
            !old(self).should_fail ==> r is Ok && final(self).submitted_blocks@.map_values(
                |b: Block| b@,
            ) == old(self).submitted_blocks@.map_values(|b: Block| b@).push(block@),
    {
        if self.should_fail {
            return Err("Mock validator client set to fail".to_owned());
        }
        self.submitted_blocks.push(block);
        proof {
            assert(self.submitted_blocks@.map_values(|b: Block| b@) =~= old(self).submitted_blocks@.map_values(|b: Block| b@).push(
                self.submitted_blocks@.last()@,
            ));
        }
        Ok(uuid_string(fresh_id()))
    }

    pub fn get_submitted_blocks(&self) -> (r: Vec<Block>)
        ensures
            r@.map_values(|b: Block| b@) == self.submitted_blocks@.map_values(|b: Block| b@),
    {
        clone_blocks(&self.submitted_blocks)
    }

    pub fn clear_submitted_blocks(&mut self)
        ensures
            final(self).submitted_blocks@.len() == 0,
            final(self).should_fail == old(self).should_fail,
    {
        self.submitted_blocks = Vec::new();
    }
}

} // verus!
