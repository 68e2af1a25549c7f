//! The simulation admission gate: an abstract RPC capability set, an
//! in-memory client that can be told to fail chosen transactions, and the
//! per-bundle filter that admits a bundle only when every one of its
//! transactions simulates successfully.

use vstd::prelude::*;

use crate::bundle::Bundle;
use crate::bundle::BundleError;
use crate::bundle::Transaction;
use crate::bundle::TxView;
use crate::platform::fresh_id;
use crate::platform::sha256;
use crate::encoding::u128_be_bytes;

verus! {

/// The outcome of simulating one transaction against chain state.
pub struct SimulationResult {
    pub success: bool,
    pub logs: Vec<String>,
    pub accounts_accessed: Vec<String>,
    pub compute_units_consumed: u64,
    pub error: Option<String>,
}

/// Mathematical model of a simulation outcome.
#[verifier::ext_equal]
pub struct SimulationResultView {
    pub success: bool,
    pub logs: Seq<Seq<char>>,
    pub accounts_accessed: Seq<Seq<char>>,
    pub compute_units_consumed: u64,
    pub error: Option<Seq<char>>,
}

impl View for SimulationResult {
    type V = SimulationResultView;

    open spec fn view(&self) -> SimulationResultView {
        SimulationResultView {
            success: self.success,
            logs: self.logs@.map_values(|s: String| s@),
            accounts_accessed: self.accounts_accessed@.map_values(|s: String| s@),
            compute_units_consumed: self.compute_units_consumed,
            error: match self.error {
                Some(s) => Some(s@),
                None => None,
            },
        }
    }
}

/// An account as the mock chain knows it.
pub struct MockAccount {
    pub pubkey: String,
    pub lamports: u64,
    pub data: Vec<u8>,
}

/// Mathematical model of a mock account.
#[verifier::ext_equal]
pub struct MockAccountView {
    pub pubkey: Seq<char>,
    pub lamports: u64,
    pub data: Seq<u8>,
}

impl View for MockAccount {
    type V = MockAccountView;

    open spec fn view(&self) -> MockAccountView {
        MockAccountView { pubkey: self.pubkey@, lamports: self.lamports, data: self.data@ }
    }
}

impl Clone for MockAccount {
    fn clone(&self) -> (r: Self)
        ensures
            r@ == self@,
    {
        MockAccount {
            pubkey: self.pubkey.clone(),
            lamports: self.lamports,
            data: self.data.clone(),
        }
    }
}

/// The capability set the engine needs from a chain endpoint: simulate a
/// transaction, look up an account, fetch a recent block hash. Implementors
/// say through `sim_success` and `sim_error` which transactions they pass.
pub trait SolanaRpcClient: Sized {
    /// Whether simulating this transaction reports success.
    spec fn sim_success(&self, tx: TxView) -> bool;

    /// The error text, if any, that simulating this transaction reports.
    spec fn sim_error(&self, tx: TxView) -> Option<Seq<char>>;

    /// The compute units that simulating this transaction reports consumed.
    spec fn sim_compute_units(&self, tx: TxView) -> u64;

    /// The account, if any, this endpoint knows under a public key.
    spec fn account_for(&self, pubkey: Seq<char>) -> Option<MockAccountView>;

    fn simulate_transaction(&self, transaction: &Transaction) -> (r: SimulationResult)
        ensures
            r@.success == self.sim_success(transaction@),
            r@.error == self.sim_error(transaction@),
            r@.compute_units_consumed == self.sim_compute_units(transaction@),
            !r@.success ==> r@.error is Some,
    ;

    fn get_account(&self, pubkey: &String) -> (r: Option<MockAccount>)
        ensures
            match r {
                Some(a) => self.account_for(pubkey@) == Some(a@),
                None => self.account_for(pubkey@) is None,
            },
    ;

    fn get_latest_blockhash(&self) -> (r: Vec<u8>)
        ensures
            r@.len() == 32,
    ;
}

/// An in-memory chain endpoint: it holds a set of accounts and a list of
/// transaction signatures that are to fail simulation; every other
/// transaction succeeds.
pub struct MockSolanaRpcClient {
    pub accounts: Vec<MockAccount>,
    pub simulation_failures: Vec<String>,
}

impl MockSolanaRpcClient {
    pub fn new() -> (r: MockSolanaRpcClient)
        ensures
            r.accounts@.len() == 0,
            r.simulation_failures@.len() == 0,
    {
        MockSolanaRpcClient { accounts: Vec::new(), simulation_failures: Vec::new() }
    }

    pub fn add_account(&mut self, account: MockAccount)
        ensures
            final(self).accounts@ == old(self).accounts@.push(account),
            final(self).simulation_failures == old(self).simulation_failures,
    {
        self.accounts.push(account);
    }

    pub fn set_simulation_failure(&mut self, tx_signature: String)
        ensures
            final(self).simulation_failures@ == old(self).simulation_failures@.push(tx_signature),
            final(self).accounts == old(self).accounts,
    {
        self.simulation_failures.push(tx_signature);
    }
}

impl SolanaRpcClient for MockSolanaRpcClient {
    open spec fn sim_success(&self, tx: TxView) -> bool {
        !self.simulation_failures@.map_values(|s: String| s@).contains(tx.signature)
    }

    open spec fn sim_error(&self, tx: TxView) -> Option<Seq<char>> {
        if self.sim_success(tx) {
            None
        } else {
            Some("Instruction failed"@)
        }
    }

    open spec fn sim_compute_units(&self, tx: TxView) -> u64 {
        if self.sim_success(tx) {
            5000
        } else {
            0
        }
    }

    open spec fn account_for(&self, pubkey: Seq<char>) -> Option<MockAccountView> {
        let views = self.accounts@.map_values(|a: MockAccount| a@);
        if exists|i: int| 0 <= i < views.len() && views[i].pubkey == pubkey {
            Some(
                views[choose|i: int|
                    0 <= i < views.len() && views[i].pubkey == pubkey && forall|j: int|
                        0 <= j < i ==> (#[trigger] views[j]).pubkey != pubkey],
            )
        } else {
            None
        }
    }

    fn simulate_transaction(&self, transaction: &Transaction) -> (r: SimulationResult)
        ensures
            r@.success == self.sim_success(transaction@),
            r@.error == self.sim_error(transaction@),
            r@.compute_units_consumed == self.sim_compute_units(transaction@),
            !r@.success ==> r@.error is Some,
    {
        let ghost failure_views = self.simulation_failures@.map_values(|s: String| s@);
        let n = self.simulation_failures.len();
        let mut k: usize = 0;
        let mut failed = false;
        while k < n
            invariant
                n == self.simulation_failures@.len(),
                k <= n,
                failure_views == self.simulation_failures@.map_values(|s: String| s@),
                failed <==> exists|j: int|
                    0 <= j < k && failure_views[j] == transaction@.signature,
            decreases n - k,
        {
            if self.simulation_failures[k] == transaction.signature {
                failed = true;
                proof {
                    assert(failure_views[k as int] == transaction@.signature);
                }
            }
            k = k + 1;
        }
        proof {
            assert(failed <==> failure_views.contains(transaction@.signature));
        }
        if failed {
            let r = SimulationResult {
                success: false,
                logs: vec!["Program execution failed".to_owned()],
                accounts_accessed: Vec::new(),
                compute_units_consumed: 0,
                error: Some("Instruction failed".to_owned()),
            };
            r
        } else {
            let r = SimulationResult {
                success: true,
                logs: vec!["Program log: Success".to_owned()],
                accounts_accessed: Vec::new(),
                compute_units_consumed: 5000,
                error: None,
            };
            r
        }
    }

    fn get_account(&self, pubkey: &String) -> (r: Option<MockAccount>)
        ensures
            match r {
                Some(a) => self.account_for(pubkey@) == Some(a@),
                None => self.account_for(pubkey@) is None,
            },
    {
        let ghost views = self.accounts@.map_values(|a: MockAccount| a@);
        let n = self.accounts.len();
        let mut k: usize = 0;
        while k < n
            invariant
                n == self.accounts@.len(),
                k <= n,
                views == self.accounts@.map_values(|a: MockAccount| a@),
                forall|j: int| 0 <= j < k ==> views[j].pubkey != pubkey@,
            decreases n - k,
        {
            if self.accounts[k].pubkey == *pubkey {
                let found = self.accounts[k].clone();
                proof {
                    assert(views[k as int].pubkey == pubkey@);
                    let c = choose|i: int|
                        0 <= i < views.len() && views[i].pubkey == pubkey@ && forall|j: int|
                            0 <= j < i ==> (#[trigger] views[j]).pubkey != pubkey@;
                    assert(c == k as int);
                    assert(found@ == views[k as int]);
                }
                return Some(found);
            }
            k = k + 1;
        }
        None
    }

    /// A fresh, unpredictable 32-byte hash, as a chain tip would hand out.
    fn get_latest_blockhash(&self) -> (r: Vec<u8>) {
        sha256(&u128_be_bytes(fresh_id()))
    }
}

/// The admission filter: simulates a bundle's transactions in order and
/// admits the bundle only if all of them succeed.
pub struct TransactionSimulator<C: SolanaRpcClient> {
    pub rpc_client: C,
}

impl<C: SolanaRpcClient> TransactionSimulator<C> {
    pub fn new(rpc_client: C) -> (r: TransactionSimulator<C>)
        ensures
            r.rpc_client == rpc_client,
    {
        TransactionSimulator { rpc_client }
    }

    /// Simulates every transaction of the bundle, in the bundle's order.
    pub fn simulate_bundle(&self, bundle: &Bundle) -> (r: Vec<SimulationResult>)
        ensures
            r@.len() == bundle@.transactions.len(),
            forall|i: int|
                0 <= i < r@.len() ==> (#[trigger] r@[i])@.success == self.rpc_client.sim_success(
                    bundle@.transactions[i],
                ),
            forall|i: int|
                0 <= i < r@.len() ==> (#[trigger] r@[i])@.error == self.rpc_client.sim_error(
                    bundle@.transactions[i],
                ),
            forall|i: int|
                0 <= i < r@.len() ==> (#[trigger] r@[i])@.compute_units_consumed
                    == self.rpc_client.sim_compute_units(bundle@.transactions[i]),
            forall|i: int|
                0 <= i < r@.len() ==> (!(#[trigger] r@[i])@.success ==> r@[i]@.error is Some),
    {
        let mut results: Vec<SimulationResult> = Vec::new();
        let n = bundle.transactions.len();
        let mut k: usize = 0;
        while k < n
            invariant
                n == bundle@.transactions.len(),
                k <= n,
                results@.len() == k,
                forall|i: int|
                    0 <= i < k ==> (#[trigger] results@[i])@.success
                        == self.rpc_client.sim_success(bundle@.transactions[i]),
                forall|i: int|
                    0 <= i < k ==> (#[trigger] results@[i])@.error == self.rpc_client.sim_error(
                        bundle@.transactions[i],
                    ),
                forall|i: int|
                    0 <= i < k ==> (#[trigger] results@[i])@.compute_units_consumed
                        == self.rpc_client.sim_compute_units(bundle@.transactions[i]),
                forall|i: int|
                    0 <= i < k ==> (!(#[trigger] results@[i])@.success ==> results@[i]@.error
                        is Some),
            decreases n - k,
        {
            let result = self.rpc_client.simulate_transaction(&bundle.transactions[k]);
            results.push(result);
            k = k + 1;
        }
        results
    }

    /// Whether every transaction of the bundle simulates successfully.
    pub open spec fn all_succeed(&self, b: crate::bundle::BundleView) -> bool {
        forall|i: int|
            0 <= i < b.transactions.len() ==> self.rpc_client.sim_success(
                #[trigger] b.transactions[i],
            )
    }

    /// The admission outcome: `Ok(true)` exactly when the bundle is
    /// structurally valid and every transaction simulates successfully; a
    /// structural error otherwise, or the first failing transaction's error
    /// text. No partial admission.
    pub fn validate_bundle(&self, bundle: &Bundle) -> (r: Result<bool, BundleError>)
        ensures
            r == Ok::<bool, BundleError>(true) <==> (bundle@.structurally_valid()
                && self.all_succeed(bundle@)),
            r is Ok ==> r == Ok::<bool, BundleError>(true),
            (r matches Err(e) && e is EmptyBundle) <==> bundle@.transactions.len() == 0,
            (r matches Err(e) && e is TooManyTransactions) <==> bundle@.transactions.len() > 5,
            (r matches Err(e) && e matches BundleError::SimulationFailed(_)) <==> (
            bundle@.structurally_valid() && !self.all_succeed(bundle@)),
            r matches Err(e) ==> (e matches BundleError::SimulationFailed(m) ==> exists|i: int|
                {
                    &&& 0 <= i < bundle@.transactions.len()
                    &&& !self.rpc_client.sim_success(bundle@.transactions[i])
                    &&& forall|j: int|
                        0 <= j < i ==> self.rpc_client.sim_success(
                            #[trigger] bundle@.transactions[j],
                        )
                    &&& m@ == match self.rpc_client.sim_error(bundle@.transactions[i]) {
                        Some(t) => t,
                        None => "Unknown simulation error"@,
                    }
                }),
    {
        if let Err(e) = bundle.validate() {
            return Err(e);
        }
        let results = self.simulate_bundle(bundle);
        let n = results.len();
        let mut k: usize = 0;
        while k < n
            invariant
                n == results@.len(),
                n == bundle@.transactions.len(),
                bundle@.structurally_valid(),
                k <= n,
                forall|i: int|
                    0 <= i < n ==> (#[trigger] results@[i])@.success
                        == self.rpc_client.sim_success(bundle@.transactions[i]),
                forall|i: int|
                    0 <= i < n ==> (#[trigger] results@[i])@.error == self.rpc_client.sim_error(
                        bundle@.transactions[i],
                    ),
                forall|i: int|
                    0 <= i < n ==> (!(#[trigger] results@[i])@.success ==> results@[i]@.error
                        is Some),
                forall|j: int|
                    0 <= j < k ==> self.rpc_client.sim_success(#[trigger] bundle@.transactions[j]),
            decreases n - k,
        {
            if !results[k].success {
                let msg = match &results[k].error {
                    Some(t) => t.clone(),
                    None => "Unknown simulation error".to_owned(),
                };
                proof {
                    let fi = k as int;
                    assert(bundle@.structurally_valid());
                    assert(!self.rpc_client.sim_success(bundle@.transactions[fi]));
                    assert(!self.all_succeed(bundle@));
                    assert((exists|i: int|
                        {
                            &&& 0 <= i < bundle@.transactions.len()
                            &&& !self.rpc_client.sim_success(bundle@.transactions[i])
                            &&& forall|j: int|
                                0 <= j < i ==> self.rpc_client.sim_success(
                                    #[trigger] bundle@.transactions[j],
                                )
                            &&& msg@ == match self.rpc_client.sim_error(bundle@.transactions[i]) {
                                Some(t) => t,
                                None => "Unknown simulation error"@,
                            }
                        })) by {
                        assert({
                            &&& 0 <= fi < bundle@.transactions.len()
                            &&& !self.rpc_client.sim_success(bundle@.transactions[fi])
                            &&& forall|j: int|
                                0 <= j < fi ==> self.rpc_client.sim_success(
                                    #[trigger] bundle@.transactions[j],
                                )
                            &&& msg@ == match self.rpc_client.sim_error(bundle@.transactions[fi]) {
                                Some(t) => t,
                                None => "Unknown simulation error"@,
                            }
                        });
                    }
                }
                return Err(BundleError::SimulationFailed(msg));
            }
            k = k + 1;
        }
        Ok(true)
    }
}

} // verus!
