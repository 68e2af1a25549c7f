//! Bundles: atomic, ordered groups of 1 to 5 serialized transactions with a
//! single tip, treated as all-or-nothing by the auction.

use vstd::prelude::*;

use crate::platform::fresh_id;
use crate::platform::now_unix_nanos;

verus! {

/// A serialized transaction together with its first signature, which is the
/// handle the simulation gate keys on.
pub struct Transaction {
    pub signature: String,
    pub data: Vec<u8>,
}

/// Mathematical model of a transaction.
#[verifier::ext_equal]
pub struct TxView {
    pub signature: Seq<char>,
    pub data: Seq<u8>,
}

impl View for Transaction {
    type V = TxView;

    open spec fn view(&self) -> TxView {
        TxView { signature: self.signature@, data: self.data@ }
    }
}

impl Transaction {
    pub fn new(signature: String, data: Vec<u8>) -> (r: Transaction)
        ensures
            r@ == (TxView { signature: signature@, data: data@ }),
    {
        Transaction { signature, data }
    }
}

impl Clone for Transaction {
    fn clone(&self) -> (r: Self)
        ensures
            r@ == self@,
    {
        Transaction { signature: self.signature.clone(), data: self.data.clone() }
    }
}

/// An atomic unit of work submitted by a searcher: an ordered group of
/// transactions, a tip in lamports (the auction ranking key), and the
/// submitter's identity. Immutable once constructed.
pub struct Bundle {
    pub id: u128,
    pub transactions: Vec<Transaction>,
    pub tip_lamports: u64,
    pub created_at: u64,
    pub searcher_pubkey: String,
}

/// Mathematical model of a bundle.
#[verifier::ext_equal]
pub struct BundleView {
    pub id: u128,
    pub transactions: Seq<TxView>,
    pub tip_lamports: u64,
    pub created_at: u64,
    pub searcher_pubkey: Seq<char>,
}

impl BundleView {
    /// The structural invariant: one to five transactions.
    pub open spec fn structurally_valid(self) -> bool {
        1 <= self.transactions.len() <= 5
    }
}

impl View for Bundle {
    type V = BundleView;

    open spec fn view(&self) -> BundleView {
        BundleView {
            id: self.id,
            transactions: self.transactions@.map_values(|t: Transaction| t@),
            tip_lamports: self.tip_lamports,
            created_at: self.created_at,
            searcher_pubkey: self.searcher_pubkey@,
        }
    }
}

impl Clone for Bundle {
    fn clone(&self) -> (r: Self)
        ensures
            r@ == self@,
    {
        let r = Bundle {
            id: self.id,
            transactions: self.transactions.clone(),
            tip_lamports: self.tip_lamports,
            created_at: self.created_at,
            searcher_pubkey: self.searcher_pubkey.clone(),
        };
        proof {
            assert(r@.transactions =~= self@.transactions);
            assert(r@ =~= self@);
        }
        r
    }
}

/// The total tip carried by a sequence of bundles.
pub open spec fn sum_tips(s: Seq<BundleView>) -> int
    decreases s.len(),
{
    if s.len() == 0 {
        0
    } else {
        sum_tips(s.drop_last()) + s.last().tip_lamports
    }
}

/// A total of tips is never negative.
pub proof fn lemma_sum_tips_nonneg(s: Seq<BundleView>)
    ensures
        sum_tips(s) >= 0,
    decreases s.len(),
{
    if s.len() > 0 {
        lemma_sum_tips_nonneg(s.drop_last());
    }
}

/// A prefix never carries more tip than the whole sequence.
pub proof fn lemma_sum_tips_take_le(s: Seq<BundleView>, k: int)
    requires
        0 <= k <= s.len(),
    ensures
        sum_tips(s.take(k)) <= sum_tips(s),
    decreases s.len(),
{
    if k == s.len() {
        assert(s.take(k) =~= s);
    } else {
        assert(s.drop_last().take(k) =~= s.take(k));
        lemma_sum_tips_take_le(s.drop_last(), k);
        assert(sum_tips(s) == sum_tips(s.drop_last()) + s.last().tip_lamports);
    }
}

/// Why a bundle was refused.
#[derive(Debug)]
pub enum BundleError {
    EmptyBundle,
    TooManyTransactions,
    SimulationFailed(String),
}

impl BundleError {
    /// The human-readable text of the error.
    pub fn message(&self) -> (r: String)
        ensures
            self is EmptyBundle ==> r@ == "Bundle cannot be empty"@,
            self is TooManyTransactions ==> r@ == "Bundle contains too many transactions (max 5)"@,
            self matches BundleError::SimulationFailed(d) ==> r@ == "Simulation failed: "@ + d@,
    {
        match self {
            BundleError::EmptyBundle => "Bundle cannot be empty".to_owned(),
            BundleError::TooManyTransactions => {
                "Bundle contains too many transactions (max 5)".to_owned()
            },
            BundleError::SimulationFailed(detail) => {
                let mut m = "Simulation failed: ".to_owned();
                m.append(detail.as_str());
                m
            },
        }
    }
}

impl Bundle {
    /// A fresh bundle: a random 128-bit id, the given transactions, tip and
    /// searcher, stamped with the wall clock in milliseconds.
    pub fn new(transactions: Vec<Transaction>, tip_lamports: u64, searcher_pubkey: String) -> (r:
        Bundle)
        ensures
            r@.transactions == transactions@.map_values(|t: Transaction| t@),
            r.tip_lamports == tip_lamports,
            r@.searcher_pubkey == searcher_pubkey@,
    {
        let nanos = now_unix_nanos();
        let millis = nanos / 1_000_000;
        let created_at: u64 = if millis > u64::MAX as u128 {
            u64::MAX
        } else {
            millis as u64
        };
        Bundle { id: fresh_id(), transactions, tip_lamports, created_at, searcher_pubkey }
    }

    /// Checks the structural invariant: a bundle holds between one and five
    /// transactions. Tips and identities are not constrained.
    pub fn validate(&self) -> (r: Result<(), BundleError>)
        ensures
            r is Ok <==> self@.structurally_valid(),
            (r matches Err(e) && e is EmptyBundle) <==> self@.transactions.len() == 0,
            (r matches Err(e) && e is TooManyTransactions) <==> self@.transactions.len() > 5,
    {
        if self.transactions.len() == 0 {
            return Err(BundleError::EmptyBundle);
        }
        if self.transactions.len() > 5 {
            return Err(BundleError::TooManyTransactions);
        }
        Ok(())
    }
}


/// The engine's top-level handle: where it reaches its chain endpoint.
pub struct BundleEngine {
    rpc_url: String,
}

impl BundleEngine {
    /// The configured endpoint address.
    pub closed spec fn url(&self) -> Seq<char> {
        self.rpc_url@
    }

    pub fn new(rpc_url: String) -> (r: BundleEngine)
        ensures
            r.url() == rpc_url@,
    {
        BundleEngine { rpc_url }
    }

    /// The configured endpoint address, for the runner that drives the
    /// auction loop.
    pub fn rpc_url(&self) -> (r: &String)
        ensures
            r@ == self.url(),
    {
        &self.rpc_url
    }
}

} // verus!
