//! The contract itself: its persisted state, the whitelist entry points, and
//! the distribution engine that plans one outbound transfer call per
//! whitelisted account.

use vstd::prelude::*;
use vstd::string::StringExecFns;

use crate::account::AccountId;
use crate::account::valid_account_char;
use crate::payload::encode_transfer_args;
use crate::payload::json_plain;
use crate::payload::json_plain_char;
use crate::payload::transfer_args_json;
use crate::whitelist::insert_unique;
use crate::whitelist::store_all;

verus! {

/// The fixed gas budget attached to each outbound transfer call.
pub const TRANSFER_GAS: u64 = 1000000;

/// The identifier views of a sequence of accounts.
pub open spec fn id_views(s: Seq<AccountId>) -> Seq<Seq<char>> {
    s.map(|i: int, a: AccountId| a@)
}

/// One planned outbound call to the token program's transfer entry point. The
/// host dispatches it asynchronously after the invocation that planned it; its
/// outcome is never reported back.
pub struct TransferCall {
    /// The token program the call is addressed to.
    pub target: AccountId,
    /// The entry point invoked on the token program.
    pub method_name: String,
    /// The JSON argument payload, `{"receiver_id":"...","amount":...}`.
    pub args: String,
    /// The account to be credited.
    pub receiver: AccountId,
    /// The amount to credit, in the token's smallest unit.
    pub amount: u128,
    /// The value transferred along with the call: always zero.
    pub deposit: u128,
    /// The gas budget attached to the call.
    pub gas: u64,
}

/// What one planned call must look like: addressed to the token program's
/// transfer entry point, crediting `wallet` with `amount`, with no attached
/// deposit, the fixed gas budget, and the matching JSON payload.
pub open spec fn transfer_call_spec(
    c: TransferCall,
    token: Seq<char>,
    wallet: Seq<char>,
    amount: u128,
) -> bool {
    &&& c.target@ == token
    &&& c.method_name@ == "ft_transfer"@
    &&& c.receiver@ == wallet
    &&& c.amount == amount
    &&& c.deposit == 0
    &&& c.gas == TRANSFER_GAS
    &&& c.args@ == transfer_args_json(wallet, amount)
}

/// The contract's persisted state: the whitelist and the account of the
/// external fungible-token program, set once at initialization.
pub struct Contract {
    whitelisted_wallets: Vec<AccountId>,
    fungible_token_account_id: AccountId,
}

impl Contract {
    /// The whitelist, as the sequence of its identifiers.
    pub closed spec fn wallets(&self) -> Seq<Seq<char>> {
        id_views(self.whitelisted_wallets@)
    }

    /// The identifier of the token program.
    pub closed spec fn token_account(&self) -> Seq<char> {
        self.fungible_token_account_id@
    }

    /// The state invariant: the whitelist holds no identifier twice.
    pub open spec fn wf(&self) -> bool {
        self.wallets().no_duplicates()
    }

    /// Initializes the contract with the token program it will instruct.
    /// This is the only constructor: no entry point can run before it.
    pub fn new(fungible_token_account_id: AccountId) -> (c: Contract)
        ensures
            c.wf(),
            c.wallets() == Seq::<Seq<char>>::empty(),
            c.token_account() == fungible_token_account_id@,
    {
        let c = Contract { whitelisted_wallets: Vec::new(), fungible_token_account_id };
        proof {
            assert(c.wallets() =~= Seq::<Seq<char>>::empty());
        }
        c
    }

    /// Whether `wallet` is already whitelisted.
    fn contains_wallet(&self, wallet: &AccountId) -> (r: bool)
        ensures
            r == self.wallets().contains(wallet@),
    {
        let n = self.whitelisted_wallets.len();
        let mut i: usize = 0;
        while i < n
            invariant
                i <= n,
                n == self.whitelisted_wallets.len(),
                forall|j: int| 0 <= j < i ==> self.wallets()[j] != wallet@,
            decreases n - i,
        {
            if self.whitelisted_wallets[i] == *wallet {
                proof {
                    assert(self.wallets()[i as int] == wallet@);
                }
                return true;
            }
            i = i + 1;
        }
        proof {
            if self.wallets().contains(wallet@) {
                let k = choose|k: int|
                    0 <= k < self.wallets().len() && self.wallets()[k] == wallet@;
            }
        }
        false
    }

    /// Appends each candidate, in input order, unless it is already present:
    /// the whitelist becomes the union of its prior contents and the batch,
    /// prior order preserved, new entries in first-seen input order.
    pub fn store_wallets(&mut self, wallet_addresses: Vec<AccountId>)
        requires
            old(self).wf(),
        ensures
            final(self).wf(),
            final(self).token_account() == old(self).token_account(),
            final(self).wallets() == store_all(
                old(self).wallets(),
                id_views(wallet_addresses@),
            ),
    {
        let ghost ws0 = self.wallets();
        let ghost cs = id_views(wallet_addresses@);
        let n = wallet_addresses.len();
        let mut i: usize = 0;
        while i < n
            invariant
                i <= n,
                n == wallet_addresses.len(),
                cs == id_views(wallet_addresses@),
                self.wf(),
                self.token_account() == old(self).token_account(),
                self.wallets() == store_all(ws0, cs.take(i as int)),
            decreases n - i,
        {
            let wallet = &wallet_addresses[i];
            let ghost before = self.wallets();
            proof {
                assert(cs.take(i + 1).drop_last() =~= cs.take(i as int));
                assert(cs.take(i + 1).last() == wallet@);
            }
            if !self.contains_wallet(wallet) {
                self.whitelisted_wallets.push(wallet.clone());
                proof {
                    assert(self.wallets() =~= before.push(wallet@));
                    crate::whitelist::lemma_insert_unique_no_duplicates(before, wallet@);
                }
            }
            proof {
                assert(self.wallets() == insert_unique(before, wallet@));
                assert(self.wallets() == store_all(ws0, cs.take(i + 1)));
            }
            i = i + 1;
        }
        proof {
            assert(cs.take(n as int) =~= cs);
        }
    }

    /// A snapshot of the whitelist, in order.
    pub fn get_whitelisted_wallets(&self) -> (r: Vec<AccountId>)
        ensures
            id_views(r@) == self.wallets(),
    {
        let n = self.whitelisted_wallets.len();
        let mut r: Vec<AccountId> = Vec::new();
        let mut i: usize = 0;
        while i < n
            invariant
                i <= n,
                n == self.whitelisted_wallets.len(),
                r@.len() == i,
                id_views(r@) == self.wallets().take(i as int),
            decreases n - i,
        {
            r.push(self.whitelisted_wallets[i].clone());
            proof {
                assert(id_views(r@) =~= self.wallets().take(i + 1));
            }
            i = i + 1;
        }
        proof {
            assert(self.wallets().take(n as int) =~= self.wallets());
        }
        r
    }

    /// Plans the distribution: one transfer call per whitelisted account, in
    /// whitelist order, each crediting the same amount to a distinct account.
    /// The calls are only planned here; the host dispatches them after the
    /// invocation completes, with no confirmation and no rollback path.
    /// Amounts above `u64::MAX` cannot be carried by the JSON payload, so
    /// they are ruled out up front.
    pub fn distribute_tokens(&self, amount_per_wallet: u128) -> (calls: Vec<TransferCall>)
        requires
            self.wf(),
            amount_per_wallet <= u64::MAX as u128,
        ensures
            calls@.len() == self.wallets().len(),
            forall|i: int|
                0 <= i < calls@.len() ==> transfer_call_spec(
                    #[trigger] calls@[i],
                    self.token_account(),
                    self.wallets()[i],
                    amount_per_wallet,
                ),
            forall|i: int, j: int|
                0 <= i < j < calls@.len() ==> calls@[i].receiver@ != calls@[j].receiver@,
    {
        let n = self.whitelisted_wallets.len();
        let mut calls: Vec<TransferCall> = Vec::new();
        let mut i: usize = 0;
        while i < n
            invariant
                i <= n,
                n == self.whitelisted_wallets.len(),
                amount_per_wallet <= u64::MAX as u128,
                calls@.len() == i,
                forall|k: int|
                    0 <= k < i ==> transfer_call_spec(
                        #[trigger] calls@[k],
                        self.token_account(),
                        self.wallets()[k],
                        amount_per_wallet,
                    ),
            decreases n - i,
        {
            let wallet = &self.whitelisted_wallets[i];
            proof {
                use_type_invariant(wallet);
                assert forall|k: int| 0 <= k < wallet@.len() implies json_plain_char(
                    #[trigger] wallet@[k],
                ) by {
                    assert(valid_account_char(wallet@[k]));
                }
                assert(json_plain(wallet@));
            }
            let args = encode_transfer_args(wallet.as_str(), amount_per_wallet);
            calls.push(
                TransferCall {
                    target: self.fungible_token_account_id.clone(),
                    method_name: String::from_str("ft_transfer"),
                    args,
                    receiver: wallet.clone(),
                    amount: amount_per_wallet,
                    deposit: 0,
                    gas: TRANSFER_GAS,
                },
            );
            i = i + 1;
        }
        calls
    }
}

} // verus!
