//! The validator side: a mock validator that revalidates a submitted block
//! against its own limits, may inject random failures, and records every
//! accept and reject; and a network of such validators that a block is
//! fanned out to.

use vstd::prelude::*;

use crate::block_assembler::Block;
use crate::block_assembler::BlockValidationError;
use crate::block_assembler::BlockView;
use crate::block_assembler::LAMPORTS_PER_TRANSACTION;
use crate::block_assembler::bundles_covered;
use crate::block_assembler::clone_blocks;
use crate::encoding::dec_chars;
use crate::encoding::hex_lower;
use crate::encoding::u128_be_bytes;
use crate::encoding::u64_string;
use crate::encoding::uuid_string;
use crate::platform::fresh_id;
use crate::platform::hash_str;
use crate::platform::now_unix_nanos;

verus! {

/// What a validator answers: acceptance with a fresh signature, or
/// rejection with a reason. Always a value, never an exception — the
/// validator is a peer, not a failure mode.
#[derive(Debug)]
pub enum BlockSubmissionResult {
    Accepted { signature: String },
    Rejected { reason: String },
}

/// A validator's performance numbers. The acceptance rate is given in
/// per-mille (accepted per thousand processed).
#[derive(Debug)]
pub struct ValidatorStats {
    pub validator_id: String,
    pub blocks_accepted: usize,
    pub blocks_rejected: usize,
    pub total_blocks_processed: usize,
    pub acceptance_rate_per_mille: u64,
    pub total_fees_processed: u64,
    pub total_tips_processed: u64,
    pub total_transactions_processed: u64,
}

/// The total fees of a sequence of blocks.
pub open spec fn sum_fees(s: Seq<BlockView>) -> int
    decreases s.len(),
{
    if s.len() == 0 {
        0
    } else {
        sum_fees(s.drop_last()) + s.last().total_fees
    }
}

/// The total tips of a sequence of blocks.
pub open spec fn sum_block_tips(s: Seq<BlockView>) -> int
    decreases s.len(),
{
    if s.len() == 0 {
        0
    } else {
        sum_block_tips(s.drop_last()) + s.last().total_tips
    }
}

/// The total transaction count of a sequence of blocks.
pub open spec fn sum_tx_counts(s: Seq<BlockView>) -> int
    decreases s.len(),
{
    if s.len() == 0 {
        0
    } else {
        sum_tx_counts(s.drop_last()) + s.last().transactions.len()
    }
}

/// The three block totals are nonnegative and grow along prefixes.
proof fn lemma_block_sums(s: Seq<BlockView>, k: int)
    requires
        0 <= k <= s.len(),
    ensures
        0 <= sum_fees(s.take(k)) <= sum_fees(s),
        0 <= sum_block_tips(s.take(k)) <= sum_block_tips(s),
        0 <= sum_tx_counts(s.take(k)) <= sum_tx_counts(s),
    decreases s.len(),
{
    if s.len() == 0 {
        assert(s.take(k) =~= s);
    } else if k == s.len() {
        assert(s.take(k) =~= s);
        lemma_block_sums(s.drop_last(), s.len() - 1);
        assert(s.drop_last().take(s.len() - 1) =~= s.drop_last());
    } else {
        assert(s.drop_last().take(k) =~= s.take(k));
        lemma_block_sums(s.drop_last(), k);
    }
}

/// A mock validator: it re-checks submitted blocks against its own limits,
/// optionally injects random failures at a configured per-mille rate, and
/// keeps the accepted blocks and the rejected blocks with their reasons.
pub struct MockValidator {
    pub validator_id: String,
    pub accepted_blocks: Vec<Block>,
    pub rejected_blocks: Vec<(Block, String)>,
    pub verification_delay_ms: u64,
    pub failure_rate_per_mille: u64,
    pub max_transactions_per_block: usize,
    pub max_compute_units_per_block: u64,
}

/// Whether this validator's checks pass for the block: transaction count
/// and compute budget within its limits, every bundle transaction present,
/// and a nonzero timestamp.
pub open spec fn validator_accepts(b: BlockView, max_tx: int, max_cu: int) -> bool {
    &&& b.transactions.len() <= max_tx
    &&& b.transactions.len() * LAMPORTS_PER_TRANSACTION <= max_cu
    &&& bundles_covered(b.transactions, b.bundles)
    &&& b.timestamp != 0
}

/// The reason text a validator gives for the first failing check.
pub open spec fn rejection_reason(b: BlockView, max_tx: int, max_cu: int) -> Seq<char> {
    if b.transactions.len() > max_tx {
        "Block contains too many transactions"@
    } else if b.transactions.len() * LAMPORTS_PER_TRANSACTION > max_cu {
        "Block exceeds compute unit limit"@
    } else if !bundles_covered(b.transactions, b.bundles) {
        "Missing transaction from bundle"@
    } else {
        "Invalid block structure: "@ + "Invalid timestamp"@
    }
}

impl MockValidator {
    /// The accepted blocks, as models.
    pub open spec fn accepted_views(&self) -> Seq<BlockView> {
        self.accepted_blocks@.map_values(|b: Block| b@)
    }

    /// The rejected blocks with their reasons, as models.
    pub open spec fn rejected_views(&self) -> Seq<(BlockView, Seq<char>)> {
        self.rejected_blocks@.map_values(|p: (Block, String)| (p.0@, p.1@))
    }

    /// The configuration, which submissions never change.
    pub open spec fn same_config(&self, other: &MockValidator) -> bool {
        &&& self.validator_id@ == other.validator_id@
        &&& self.verification_delay_ms == other.verification_delay_ms
        &&& self.failure_rate_per_mille == other.failure_rate_per_mille
        &&& self.max_transactions_per_block == other.max_transactions_per_block
        &&& self.max_compute_units_per_block == other.max_compute_units_per_block
    }

    /// A validator with default settings and a fresh id.
    pub fn new() -> (r: MockValidator)
        ensures
            r.accepted_blocks@.len() == 0,
            r.rejected_blocks@.len() == 0,
            r.verification_delay_ms == 100,
            r.failure_rate_per_mille == 0,
            r.max_transactions_per_block == 100,
            r.max_compute_units_per_block == 1_000_000,
    {
        let id_bytes = u128_be_bytes(fresh_id());
        let mut prefix: Vec<u8> = Vec::new();
        prefix.push(id_bytes[0]);
        prefix.push(id_bytes[1]);
        prefix.push(id_bytes[2]);
        prefix.push(id_bytes[3]);
        let mut validator_id = "validator_".to_owned();
        validator_id.append(hex_lower(&prefix).as_str());
        MockValidator {
            validator_id,
            accepted_blocks: Vec::new(),
            rejected_blocks: Vec::new(),
            verification_delay_ms: 100,
            failure_rate_per_mille: 0,
            max_transactions_per_block: 100,
            max_compute_units_per_block: 1_000_000,
        }
    }

    /// A validator that injects random failures at the given per-mille
    /// rate, clamped to one thousand.
    pub fn with_failure_rate(failure_rate_per_mille: u64) -> (r: MockValidator)
        ensures
            r.accepted_blocks@.len() == 0,
            r.rejected_blocks@.len() == 0,
            r.verification_delay_ms == 100,
            r.failure_rate_per_mille == if failure_rate_per_mille <= 1000 {
                failure_rate_per_mille
            } else {
                1000
            },
            r.max_transactions_per_block == 100,
            r.max_compute_units_per_block == 1_000_000,
    {
        let mut validator = Self::new();
        validator.failure_rate_per_mille = if failure_rate_per_mille <= 1000 {
            failure_rate_per_mille
        } else {
            1000
        };
        validator
    }

    /// A validator with a custom verification delay.
    pub fn with_verification_delay(delay_ms: u64) -> (r: MockValidator)
        ensures
            r.accepted_blocks@.len() == 0,
            r.rejected_blocks@.len() == 0,
            r.verification_delay_ms == delay_ms,
            r.failure_rate_per_mille == 0,
            r.max_transactions_per_block == 100,
            r.max_compute_units_per_block == 1_000_000,
    {
        let mut validator = Self::new();
        validator.verification_delay_ms = delay_ms;
        validator
    }

    /// A validator with custom limits.
    pub fn with_limits(max_transactions: usize, max_compute_units: u64) -> (r: MockValidator)
        ensures
            r.accepted_blocks@.len() == 0,
            r.rejected_blocks@.len() == 0,
            r.verification_delay_ms == 100,
            r.failure_rate_per_mille == 0,
            r.max_transactions_per_block == max_transactions,
            r.max_compute_units_per_block == max_compute_units,
    {
        let mut validator = Self::new();
        validator.max_transactions_per_block = max_transactions;
        validator.max_compute_units_per_block = max_compute_units;
        validator
    }

    /// This validator's own re-check of a block, mirroring the assembler's
    /// checks and additionally refusing a zero timestamp.
    fn validate_block(&self, block: &Block) -> (r: Result<(), BlockValidationError>)
        ensures
            r is Ok <==> validator_accepts(
                block@,
                self.max_transactions_per_block as int,
                self.max_compute_units_per_block as int,
            ),
            r matches Err(e) ==> e.message_view() == rejection_reason(
                block@,
                self.max_transactions_per_block as int,
                self.max_compute_units_per_block as int,
            ),
    {
        let ghost txs = block@.transactions;
        let ghost bviews = block@.bundles;
        if block.transactions.len() > self.max_transactions_per_block {
            return Err(BlockValidationError::TooManyTransactions);
        }
        let over_budget = (block.transactions.len() as u64)
            > self.max_compute_units_per_block / LAMPORTS_PER_TRANSACTION;
        proof {
            let len = block@.transactions.len() as int;
            let mc = self.max_compute_units_per_block as int;
            let per = LAMPORTS_PER_TRANSACTION as int;
            assert((len * per > mc) <==> (len > mc / per)) by (nonlinear_arith)
                requires
                    len >= 0,
                    mc >= 0,
                    per == 5000,
            ;
        }
        if over_budget {
            return Err(BlockValidationError::TooManyComputeUnits);
        }
        if !crate::block_assembler::block_covers_bundles(block) {
            return Err(BlockValidationError::MissingBundleTransaction);
        }
        if block.timestamp == 0 {
            return Err(BlockValidationError::InvalidStructure("Invalid timestamp".to_owned()));
        }
        Ok(())
    }

    /// Whether to inject a random failure: never at rate zero, always at a
    /// full rate, and by a wall-clock draw in between.
    fn should_fail(&self) -> (r: bool)
        ensures
            self.failure_rate_per_mille == 0 ==> !r,
            self.failure_rate_per_mille >= 1000 ==> r,
    {
        if self.failure_rate_per_mille == 0 {
            return false;
        }
        if self.failure_rate_per_mille >= 1000 {
            return true;
        }
        let nanos = now_unix_nanos();
        let draw = hash_str(hex_lower(&u128_be_bytes(nanos)).as_str()) % 1000;
        draw < self.failure_rate_per_mille
    }

    /// Accepts a block: records it and answers a fresh signature.
    fn accept_block(&mut self, block: Block) -> (r: String)
        ensures
            final(self).same_config(old(self)),
            final(self).accepted_views() == old(self).accepted_views().push(block@),
            final(self).rejected_views() == old(self).rejected_views(),
    {
        self.accepted_blocks.push(block);
        proof {
            assert(self.accepted_views() =~= old(self).accepted_views().push(
                self.accepted_blocks@.last()@,
            ));
        }
        uuid_string(fresh_id())
    }

    /// Rejects a block: records it with the reason.
    fn reject_block(&mut self, block: Block, reason: String)
        ensures
            final(self).same_config(old(self)),
            final(self).accepted_views() == old(self).accepted_views(),
            final(self).rejected_views() == old(self).rejected_views().push((block@, reason@)),
    {
        self.rejected_blocks.push((block, reason));
        proof {
            assert(self.rejected_views() =~= old(self).rejected_views().push(
                (self.rejected_blocks@.last().0@, self.rejected_blocks@.last().1@),
            ));
        }
    }

    /// Submits a block to this validator. A block failing the checks is
    /// rejected with the first failing check's text; a passing block is
    /// accepted with a fresh signature, unless the configured failure rate
    /// injects a random rejection. Either way the outcome is recorded.
    pub fn submit_block(&mut self, block: Block) -> (r: BlockSubmissionResult)
        ensures
            final(self).same_config(old(self)),
            !validator_accepts(
                block@,
                old(self).max_transactions_per_block as int,
                old(self).max_compute_units_per_block as int,
            ) ==> {
                &&& r matches BlockSubmissionResult::Rejected { reason } && reason@
                    == rejection_reason(
                    block@,
                    old(self).max_transactions_per_block as int,
                    old(self).max_compute_units_per_block as int,
                )
                &&& final(self).accepted_views() == old(self).accepted_views()
                &&& final(self).rejected_views() == old(self).rejected_views().push(
                    (
                        block@,
                        rejection_reason(
                            block@,
                            old(self).max_transactions_per_block as int,
                            old(self).max_compute_units_per_block as int,
                        ),
                    ),
                )
            },
            validator_accepts(
                block@,
                old(self).max_transactions_per_block as int,
                old(self).max_compute_units_per_block as int,
            ) ==> {
                ||| {
                    &&& r is Accepted
                    &&& final(self).accepted_views() == old(self).accepted_views().push(block@)
                    &&& final(self).rejected_views() == old(self).rejected_views()
                }
                ||| {
                    &&& r matches BlockSubmissionResult::Rejected { reason } && reason@
                        == "Random validation failure"@
                    &&& final(self).accepted_views() == old(self).accepted_views()
                    &&& final(self).rejected_views() == old(self).rejected_views().push(
                        (block@, "Random validation failure"@),
                    )
                }
            },
            (validator_accepts(
                block@,
                old(self).max_transactions_per_block as int,
                old(self).max_compute_units_per_block as int,
            ) && old(self).failure_rate_per_mille == 0) ==> r is Accepted,
            (validator_accepts(
                block@,
                old(self).max_transactions_per_block as int,
                old(self).max_compute_units_per_block as int,
            ) && old(self).failure_rate_per_mille >= 1000) ==> r is Rejected,
            r is Accepted ==> final(self).accepted_views() == old(self).accepted_views().push(
                block@,
            ) && final(self).rejected_views() == old(self).rejected_views(),
            r matches BlockSubmissionResult::Rejected { reason } ==> final(self).rejected_views()
                == old(self).rejected_views().push((block@, reason@)) && final(self)
                .accepted_views() == old(self).accepted_views(),
    {
        match self.validate_block(&block) {
            Ok(()) => {
                if self.should_fail() {
                    let reason = "Random validation failure".to_owned();
                    self.reject_block(block, reason);
                    let reason_again = "Random validation failure".to_owned();
                    BlockSubmissionResult::Rejected { reason: reason_again }
                } else {
                    let signature = self.accept_block(block);
                    BlockSubmissionResult::Accepted { signature }
                }
            },
            Err(validation_error) => {
                let reason = validation_error.message();
                let reason_copy = validation_error.message();
                self.reject_block(block, reason);
                BlockSubmissionResult::Rejected { reason: reason_copy }
            },
        }
    }

    /// Whether this validator's recorded totals fit the machine word.
    pub open spec fn stats_fit(&self) -> bool {
        &&& self.accepted_blocks@.len() + self.rejected_blocks@.len() <= usize::MAX
        &&& sum_fees(self.accepted_views()) <= u64::MAX
        &&& sum_block_tips(self.accepted_views()) <= u64::MAX
        &&& sum_tx_counts(self.accepted_views()) <= u64::MAX
    }

    /// The validator's performance numbers; the aggregates cover accepted
    /// blocks only, and the acceptance rate is truncating per-mille.
    pub fn get_stats(&self) -> (r: ValidatorStats)
        requires
            self.stats_fit(),
        ensures
            r.validator_id@ == self.validator_id@,
            r.blocks_accepted == self.accepted_views().len(),
            r.blocks_rejected == self.rejected_views().len(),
            r.total_blocks_processed == self.accepted_views().len() + self.rejected_views().len(),
            r.total_fees_processed == sum_fees(self.accepted_views()),
            r.total_tips_processed == sum_block_tips(self.accepted_views()),
            r.total_transactions_processed == sum_tx_counts(self.accepted_views()),
            r.acceptance_rate_per_mille == if self.accepted_views().len()
                + self.rejected_views().len() > 0 {
                (self.accepted_views().len() * 1000) as int / (self.accepted_views().len()
                    + self.rejected_views().len()) as int
            } else {
                0
            },
    {
        let ghost views = self.accepted_views();
        let accepted = self.accepted_blocks.len();
        let rejected = self.rejected_blocks.len();
        let total = accepted + rejected;

        let mut fees: u64 = 0;
        let mut tips: u64 = 0;
        let mut txs: u64 = 0;
        let mut k: usize = 0;
        while k < accepted
            invariant
                accepted == views.len(),
                views == self.accepted_views(),
                self.stats_fit(),
                k <= accepted,
                fees == sum_fees(views.take(k as int)),
                tips == sum_block_tips(views.take(k as int)),
                txs == sum_tx_counts(views.take(k as int)),
            decreases accepted - k,
        {
            proof {
                assert(views.take(k as int + 1).drop_last() =~= views.take(k as int));
                assert(views.take(k as int + 1).last() == views[k as int]);
                lemma_block_sums(views, k as int + 1);
                lemma_block_sums(views, k as int);
                assert(views[k as int].transactions.len() == self.accepted_blocks@[k as int]@
                    .transactions.len());
            }
            let b = &self.accepted_blocks[k];
            fees = fees + b.total_fees;
            tips = tips + b.total_tips;
            txs = txs + (b.transactions.len() as u64);
            k = k + 1;
        }
        proof {
            assert(views.take(accepted as int) =~= views);
        }

        let rate: u64 = if total > 0 {
            let wide = (accepted as u128) * 1000 / (total as u128);
            proof {
                let a = accepted as int;
                let t = total as int;
                assert(a * 1000 / t <= 1000) by (nonlinear_arith)
                    requires
                        0 <= a <= t,
                        t > 0,
                ;
            }
            wide as u64
        } else {
            0
        };
        ValidatorStats {
            validator_id: self.validator_id.clone(),
            blocks_accepted: accepted,
            blocks_rejected: rejected,
            total_blocks_processed: total,
            acceptance_rate_per_mille: rate,
            total_fees_processed: fees,
            total_tips_processed: tips,
            total_transactions_processed: txs,
        }
    }

    /// Forgets all recorded blocks.
    pub fn clear_history(&mut self)
        ensures
            final(self).same_config(old(self)),
            final(self).accepted_views().len() == 0,
            final(self).rejected_views().len() == 0,
    {
        self.accepted_blocks = Vec::new();
        self.rejected_blocks = Vec::new();
    }

    /// The accepted blocks, copied out.
    pub fn get_accepted_blocks(&self) -> (r: Vec<Block>)
        ensures
            r@.map_values(|b: Block| b@) == self.accepted_views(),
    {
        clone_blocks(&self.accepted_blocks)
    }

    /// The rejected blocks and their reasons, copied out.
    pub fn get_rejected_blocks(&self) -> (r: Vec<(Block, String)>)
        ensures
            r@.map_values(|p: (Block, String)| (p.0@, p.1@)) == self.rejected_views(),
    {
        let n = self.rejected_blocks.len();
        let mut r: Vec<(Block, String)> = Vec::new();
        let mut k: usize = 0;
        while k < n
            invariant
                n == self.rejected_blocks@.len(),
                k <= n,
                r@.map_values(|p: (Block, String)| (p.0@, p.1@)) =~= self.rejected_views().take(
                    k as int,
                ),
            decreases n - k,
        {
            let entry = &self.rejected_blocks[k];
            let ghost prev = r@;
            r.push((entry.0.clone(), entry.1.clone()));
            proof {
                assert(r@.map_values(|p: (Block, String)| (p.0@, p.1@)) =~= prev.map_values(
                    |p: (Block, String)| (p.0@, p.1@),
                ).push(self.rejected_views()[k as int]));
                assert(r@.map_values(|p: (Block, String)| (p.0@, p.1@)) =~= self.rejected_views()
                    .take(k as int + 1));
            }
            k = k + 1;
        }
        proof {
            assert(self.rejected_views().take(n as int) =~= self.rejected_views());
        }
        r
    }
}

impl Default for MockValidator {
    /// The same as `new`: default settings and a fresh id.
    fn default() -> (r: Self)
        ensures
            r.accepted_blocks@.len() == 0,
            r.rejected_blocks@.len() == 0,
            r.verification_delay_ms == 100,
            r.failure_rate_per_mille == 0,
            r.max_transactions_per_block == 100,
            r.max_compute_units_per_block == 1_000_000,
    {
        Self::new()
    }
}

/// A network of validators with varied failure rates, for fanout
/// submission.
pub struct ValidatorNetwork {
    pub validators: Vec<MockValidator>,
}

impl ValidatorNetwork {
    /// A network of `count` validators named `validator_0`, `validator_1`
    /// and so on, whose failure rates cycle through 50, 100 and 20
    /// per-mille.
    pub fn new(count: usize) -> (r: ValidatorNetwork)
        ensures
            r.validators@.len() == count,
            forall|i: int|
                0 <= i < count ==> (#[trigger] r.validators@[i]).validator_id@ == "validator_"@
                    + dec_chars(i),
            forall|i: int|
                0 <= i < count ==> (#[trigger] r.validators@[i]).failure_rate_per_mille == (
                if i % 3 == 0 {
                    50int
                } else if i % 3 == 1 {
                    100int
                } else {
                    20int
                }),
            forall|i: int|
                0 <= i < count ==> (#[trigger] r.validators@[i]).accepted_views().len() == 0
                    && r.validators@[i].rejected_views().len() == 0,
    {
        let mut validators: Vec<MockValidator> = Vec::new();
        let mut i: usize = 0;
        while i < count
            invariant
                i <= count,
                validators@.len() == i,
                forall|j: int|
                    0 <= j < i ==> (#[trigger] validators@[j]).validator_id@ == "validator_"@
                        + dec_chars(j),
                forall|j: int|
                    0 <= j < i ==> (#[trigger] validators@[j]).failure_rate_per_mille == (
                    if j % 3 == 0 {
                        50int
                    } else if j % 3 == 1 {
                        100int
                    } else {
                        20int
                    }),
                forall|j: int|
                    0 <= j < i ==> (#[trigger] validators@[j]).accepted_views().len() == 0
                        && validators@[j].rejected_views().len() == 0,
            decreases count - i,
        {
            let mut validator = MockValidator::new();
            let mut label = "validator_".to_owned();
            label.append(u64_string(i as u64).as_str());
            validator.validator_id = label;
            let rem = i % 3;
            validator.failure_rate_per_mille = if rem == 0 {
                50
            } else if rem == 1 {
                100
            } else {
                20
            };
            validators.push(validator);
            i = i + 1;
        }
        ValidatorNetwork { validators }
    }

    /// Hands a copy of the block to every validator in turn and gathers
    /// each one's identity and answer. A validator that never injects
    /// failures accepts exactly when its checks pass.
    pub fn submit_block_to_network(&mut self, block: Block) -> (r: Vec<(
        String,
        BlockSubmissionResult,
    )>)
        ensures
            final(self).validators@.len() == old(self).validators@.len(),
            r@.len() == old(self).validators@.len(),
            forall|i: int|
                0 <= i < r@.len() ==> (#[trigger] final(self).validators@[i]).same_config(
                    &old(self).validators@[i],
                ),
            forall|i: int|
                0 <= i < r@.len() ==> (#[trigger] r@[i]).0@ == old(self).validators@[i].validator_id@,
            forall|i: int|
                0 <= i < r@.len() && (#[trigger] old(self).validators@[i]).failure_rate_per_mille
                    == 0 && validator_accepts(
                    block@,
                    old(self).validators@[i].max_transactions_per_block as int,
                    old(self).validators@[i].max_compute_units_per_block as int,
                ) ==> r@[i].1 is Accepted,
            forall|i: int|
                0 <= i < r@.len() && !validator_accepts(
                    block@,
                    (#[trigger] old(self).validators@[i]).max_transactions_per_block as int,
                    old(self).validators@[i].max_compute_units_per_block as int,
                ) ==> r@[i].1 is Rejected,
            forall|i: int|
                0 <= i < r@.len() ==> ((#[trigger] r@[i]).1 is Accepted ==> final(self).validators@[i].accepted_views() == old(self).validators@[i].accepted_views()
                    .push(block@) && final(self).validators@[i].rejected_views() == old(self).validators@[i].rejected_views()),
            forall|i: int|
                0 <= i < r@.len() ==> ((#[trigger] r@[i]).1 matches
                BlockSubmissionResult::Rejected { reason } ==> final(self).validators@[i].rejected_views() == old(self).validators@[i].rejected_views()
                    .push((block@, reason@)) && final(self).validators@[i].accepted_views() == old(self).validators@[i].accepted_views()),
    {
        let n = self.validators.len();
        let mut results: Vec<(String, BlockSubmissionResult)> = Vec::new();
        let mut k: usize = 0;
        while k < n
            invariant
                n == old(self).validators@.len(),
                self.validators@.len() == n,
                k <= n,
                results@.len() == k,
                forall|i: int|
                    k <= i < n ==> (#[trigger] self.validators@[i]) == old(self).validators@[i],
                forall|i: int|
                    0 <= i < n ==> (#[trigger] self.validators@[i]).same_config(
                        &old(self).validators@[i],
                    ),
                forall|i: int|
                    0 <= i < k ==> (#[trigger] results@[i]).0@ == old(self).validators@[i].validator_id@,
                forall|i: int|
                    0 <= i < k ==> ((#[trigger] results@[i]).1 is Accepted ==> self
                        .validators@[i].accepted_views() == old(self).validators@[i]
                        .accepted_views().push(block@) && self.validators@[i].rejected_views()
                        == old(self).validators@[i].rejected_views()),
                forall|i: int|
                    0 <= i < k ==> ((#[trigger] results@[i]).1 matches
                    BlockSubmissionResult::Rejected { reason } ==> self
                        .validators@[i].rejected_views() == old(self).validators@[i]
                        .rejected_views().push((block@, reason@)) && self
                        .validators@[i].accepted_views() == old(self).validators@[i]
                        .accepted_views()),
                forall|i: int|
                    0 <= i < k && (#[trigger] old(self).validators@[i]).failure_rate_per_mille == 0
                        && validator_accepts(
                        block@,
                        old(self).validators@[i].max_transactions_per_block as int,
                        old(self).validators@[i].max_compute_units_per_block as int,
                    ) ==> results@[i].1 is Accepted,
                forall|i: int|
                    0 <= i < k && !validator_accepts(
                        block@,
                        (#[trigger] old(self).validators@[i]).max_transactions_per_block as int,
                        old(self).validators@[i].max_compute_units_per_block as int,
                    ) ==> results@[i].1 is Rejected,
            decreases n - k,
        {
            let block_copy = block.clone();
            proof {
                assert(block_copy@ == block@);
                assert(self.validators@[k as int] == old(self).validators@[k as int]);
            }
            let validator_id = self.validators[k].validator_id.clone();
            let outcome = vec_validator_submit(&mut self.validators, k, block_copy);
            results.push((validator_id, outcome));
            k = k + 1;
        }
        results
    }

    /// Every validator's performance numbers.
    pub fn get_network_stats(&self) -> (r: Vec<ValidatorStats>)
        requires
            forall|i: int|
                0 <= i < self.validators@.len() ==> (#[trigger] self.validators@[i]).stats_fit(),
        ensures
            r@.len() == self.validators@.len(),
            forall|i: int|
                0 <= i < r@.len() ==> (#[trigger] r@[i]).validator_id@
                    == self.validators@[i].validator_id@ && r@[i].blocks_accepted
                    == self.validators@[i].accepted_views().len() && r@[i].blocks_rejected
                    == self.validators@[i].rejected_views().len(),
    {
        let n = self.validators.len();
        let mut r: Vec<ValidatorStats> = Vec::new();
        let mut k: usize = 0;
        while k < n
            invariant
                n == self.validators@.len(),
                forall|i: int|
                    0 <= i < n ==> (#[trigger] self.validators@[i]).stats_fit(),
                k <= n,
                r@.len() == k,
                forall|i: int|
                    0 <= i < k ==> (#[trigger] r@[i]).validator_id@
                        == self.validators@[i].validator_id@ && r@[i].blocks_accepted
                        == self.validators@[i].accepted_views().len() && r@[i].blocks_rejected
                        == self.validators@[i].rejected_views().len(),
            decreases n - k,
        {
            let stats = self.validators[k].get_stats();
            r.push(stats);
            k = k + 1;
        }
        r
    }
}

/// Submits to the validator at one index of a vector, leaving the others
/// untouched.
fn vec_validator_submit(validators: &mut Vec<MockValidator>, k: usize, block: Block) -> (r:
    BlockSubmissionResult)
    requires
        k < old(validators)@.len(),
    ensures
        final(validators)@.len() == old(validators)@.len(),
        forall|i: int|
            0 <= i < old(validators)@.len() && i != k ==> final(validators)@[i] == old(validators)@[i],
        final(validators)@[k as int].same_config(&old(validators)@[k as int]),
        final(validators)@[k as int].max_transactions_per_block == old(validators)@[k as int].max_transactions_per_block,
        final(validators)@[k as int].max_compute_units_per_block == old(validators)@[k as int].max_compute_units_per_block,
        final(validators)@[k as int].failure_rate_per_mille == old(validators)@[k as int].failure_rate_per_mille,
        (old(validators)@[k as int].failure_rate_per_mille == 0 && validator_accepts(
            block@,
            old(validators)@[k as int].max_transactions_per_block as int,
            old(validators)@[k as int].max_compute_units_per_block as int,
        )) ==> r is Accepted,
        !validator_accepts(
            block@,
            old(validators)@[k as int].max_transactions_per_block as int,
            old(validators)@[k as int].max_compute_units_per_block as int,
        ) ==> r is Rejected,
        r is Accepted ==> final(validators)@[k as int].accepted_views() == old(validators)@[k as int].accepted_views().push(block@) && final(validators)@[k as int].rejected_views()
            == old(validators)@[k as int].rejected_views(),
        r matches BlockSubmissionResult::Rejected { reason } ==> final(validators)@[k as int].rejected_views() == old(validators)@[k as int].rejected_views().push(
            (block@, reason@),
        ) && final(validators)@[k as int].accepted_views() == old(validators)@[k as int].accepted_views(),
{
    let ghost before = validators@;
    let mut validator = validators.remove(k);
    let outcome = validator.submit_block(block);
    validators.insert(k, validator);
    proof {
        assert forall|i: int| 0 <= i < before.len() && i != k implies validators@[i]
            == before[i] by {
            if i < k {
                assert(validators@[i] == before.remove(k as int).insert(k as int, validators@[k as int])[i]);
            }
        }
    }
    outcome
}

} // verus!
