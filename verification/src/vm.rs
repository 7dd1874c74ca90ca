//! The execution session: a registry of deployed contracts and a
//! monotonic, bounded gas counter, with the gas-metered call dispatcher.
//!
//! Every operation is specified by a transition function on [`VmView`],
//! the session's mathematical value; the executable methods promise to
//! implement those transitions exactly.  Gas is charged before the ceiling
//! is checked, and neither gas nor any other side effect already applied
//! is rolled back when a call fails.

use vstd::prelude::*;
use crate::contract::{magic_valid, validate_code, ContractView, WasmContract};
use crate::decimal::{amount_of, dec_str, parse_u64_or_zero, u64_to_string};
use crate::storage::Storage;
use crate::text::{
    executed_msg_bytes, fallback_msg, make_executed_msg_bytes, make_fallback_msg,
    make_storage_set_msg, make_transferred_msg, storage_set_msg, str_eq, transferred_msg,
};

verus! {

/// Gas charged by a successful deploy.
pub const DEPLOY_COST: u64 = 21000;

/// Gas charged at the start of every contract call.
pub const BASE_CALL_COST: u64 = 3000;

/// Extra gas charged by the `set_storage` handler.
pub const SET_STORAGE_COST: u64 = 5000;

/// Extra gas charged by a successful `transfer`.
pub const TRANSFER_COST: u64 = 10000;

/// Extra gas charged by the fallback handler.
pub const FALLBACK_COST: u64 = 1000;

/// Gas charged by the generic execution entry point.
pub const EXECUTE_COST: u64 = 10000;

/// A call-scoped failure; none is fatal to the session.
#[derive(Clone, Copy, Debug, PartialEq, Eq, Structural)]
pub enum VmError {
    /// A contract is already deployed at the address.
    DuplicateAddress,
    /// The code payload lacks the 4-byte magic header.
    InvalidFormat,
    /// No contract is deployed at the address.
    ContractNotFound,
    /// The gas counter went past the session's ceiling.
    GasExhausted,
    /// The handler needs an argument the caller did not pass.
    MissingArgument,
    /// A transfer asked for more than the contract holds.
    InsufficientBalance,
}

/// The mathematical value of a session: the deployed contracts by
/// address, and the gas accounting.  `gas_used` is a `nat`: the counter
/// itself never wraps, and the executable methods require room in a `u64`.
#[verifier::ext_equal]
pub ghost struct VmView {
    pub contracts: Map<Seq<char>, ContractView>,
    pub gas_limit: u64,
    pub gas_used: nat,
}

/// The map a contract list denotes, keyed by address; a later contract
/// shadows an earlier one at the same address (well-formed sessions never
/// hold two).
pub open spec fn contracts_map(s: Seq<WasmContract>) -> Map<Seq<char>, ContractView>
    decreases s.len(),
{
    if s.len() == 0 {
        Map::empty()
    } else {
        contracts_map(s.drop_last()).insert(s.last().address@, s.last()@)
    }
}

/// Whether the contract addresses are pairwise distinct.
pub open spec fn addrs_distinct(s: Seq<WasmContract>) -> bool {
    forall|i: int, j: int|
        0 <= i < j < s.len() ==> (#[trigger] s[i]).address@ != (#[trigger] s[j]).address@
}

proof fn lemma_contracts_map_contains(s: Seq<WasmContract>, a: Seq<char>)
    ensures
        contracts_map(s).contains_key(a) <==> exists|i: int|
            0 <= i < s.len() && (#[trigger] s[i]).address@ == a,
    decreases s.len(),
{
    if s.len() > 0 {
        lemma_contracts_map_contains(s.drop_last(), a);
        if contracts_map(s).contains_key(a) {
            if s.last().address@ == a {
                assert(s[s.len() - 1].address@ == a);
            } else {
                let i = choose|i: int|
                    0 <= i < s.drop_last().len() && (#[trigger] s.drop_last()[i]).address@ == a;
                assert(s[i].address@ == a);
            }
        }
        if exists|i: int| 0 <= i < s.len() && (#[trigger] s[i]).address@ == a {
            let i = choose|i: int| 0 <= i < s.len() && (#[trigger] s[i]).address@ == a;
            if i < s.len() - 1 {
                assert(s.drop_last()[i].address@ == a);
            }
        }
    }
}

proof fn lemma_contracts_map_index(s: Seq<WasmContract>, i: int)
    requires
        addrs_distinct(s),
        0 <= i < s.len(),
    ensures
        contracts_map(s).contains_key(s[i].address@),
        contracts_map(s)[s[i].address@] == s[i]@,
    decreases s.len(),
{
    if i == s.len() - 1 {
        lemma_contracts_map_contains(s, s[i].address@);
    } else {
        lemma_contracts_map_index(s.drop_last(), i);
        assert(s.drop_last()[i] == s[i]);
        assert(s.last().address@ != s[i].address@);
    }
}

proof fn lemma_contracts_map_update(s: Seq<WasmContract>, i: int, c: WasmContract)
    requires
        addrs_distinct(s),
        0 <= i < s.len(),
        c.address@ == s[i].address@,
    ensures
        contracts_map(s.update(i, c)) =~= contracts_map(s).insert(c.address@, c@),
    decreases s.len(),
{
    let t = s.update(i, c);
    if i == s.len() - 1 {
        assert(t.drop_last() =~= s.drop_last());
        assert(t.last() == c);
    } else {
        lemma_contracts_map_update(s.drop_last(), i, c);
        assert(t.drop_last() =~= s.drop_last().update(i, c));
        assert(t.last() == s.last());
        assert(s.last().address@ != c.address@);
    }
}

/// The session after charging `amount` gas: the charge is applied
/// unconditionally, whether or not the operation then fails.
pub open spec fn charge(pre: VmView, amount: nat) -> VmView {
    VmView { contracts: pre.contracts, gas_limit: pre.gas_limit, gas_used: pre.gas_used + amount }
}

/// The transition of a deploy: duplicate addresses and bad headers are
/// rejected with no effect; otherwise a contract with balance 0 and empty
/// storage is registered and the deploy cost is charged.
pub open spec fn deploy_tr(pre: VmView, address: Seq<char>, code: Seq<u8>) -> (VmView, Result<
    (),
    VmError,
>) {
    if pre.contracts.contains_key(address) {
        (pre, Err(VmError::DuplicateAddress))
    } else if !magic_valid(code) {
        (pre, Err(VmError::InvalidFormat))
    } else {
        let c = ContractView { address, code, storage: Map::empty(), balance: 0 };
        (
            VmView {
                contracts: pre.contracts.insert(address, c),
                gas_limit: pre.gas_limit,
                gas_used: (pre.gas_used + DEPLOY_COST) as nat,
            },
            Ok(()),
        )
    }
}

/// The extra gas the handler for `method` can charge on top of the base
/// call cost.
pub open spec fn extra_call_cost(method: Seq<char>) -> nat {
    if method == "get_balance"@ || method == "get_storage"@ {
        0
    } else if method == "set_storage"@ {
        SET_STORAGE_COST as nat
    } else if method == "transfer"@ {
        TRANSFER_COST as nat
    } else {
        FALLBACK_COST as nat
    }
}

/// The transition of a contract call.  The base cost is charged first and
/// kept even when the call then fails: on exhaustion, on a missing
/// contract, on a missing argument, and on an insufficient balance.  A
/// handler's own charge obeys the same charge-then-check rule: it is
/// applied after the handler's mutation, and when it pushes the counter
/// past the ceiling the call fails with `GasExhausted` while the mutation
/// and the full charge stay in place — nothing is rolled back.
pub open spec fn call_tr(
    pre: VmView,
    address: Seq<char>,
    method: Seq<char>,
    args: Seq<Seq<char>>,
) -> (VmView, Result<Seq<char>, VmError>) {
    let mid = charge(pre, BASE_CALL_COST as nat);
    if mid.gas_used > mid.gas_limit as nat {
        (mid, Err(VmError::GasExhausted))
    } else if !mid.contracts.contains_key(address) {
        (mid, Err(VmError::ContractNotFound))
    } else {
        let c = mid.contracts[address];
        if method == "get_balance"@ {
            (mid, Ok(dec_str(c.balance)))
        } else if method == "get_storage"@ {
            if args.len() == 0 {
                (mid, Err(VmError::MissingArgument))
            } else {
                let v = if c.storage.contains_key(args[0]) {
                    c.storage[args[0]]
                } else {
                    Seq::<char>::empty()
                };
                (mid, Ok(v))
            }
        } else if method == "set_storage"@ {
            if args.len() < 2 {
                (mid, Err(VmError::MissingArgument))
            } else {
                let c2 = ContractView {
                    address: c.address,
                    code: c.code,
                    storage: c.storage.insert(args[0], args[1]),
                    balance: c.balance,
                };
                let post = VmView {
                    contracts: mid.contracts.insert(address, c2),
                    gas_limit: mid.gas_limit,
                    gas_used: (mid.gas_used + SET_STORAGE_COST) as nat,
                };
                if post.gas_used > post.gas_limit as nat {
                    (post, Err(VmError::GasExhausted))
                } else {
                    (post, Ok(storage_set_msg(args[0], args[1])))
                }
            }
        } else if method == "transfer"@ {
            if args.len() == 0 {
                (mid, Err(VmError::MissingArgument))
            } else {
                let amount = amount_of(args[0]);
                if amount <= c.balance {
                    let c2 = ContractView {
                        address: c.address,
                        code: c.code,
                        storage: c.storage,
                        balance: (c.balance - amount) as nat,
                    };
                    let post = VmView {
                        contracts: mid.contracts.insert(address, c2),
                        gas_limit: mid.gas_limit,
                        gas_used: (mid.gas_used + TRANSFER_COST) as nat,
                    };
                    if post.gas_used > post.gas_limit as nat {
                        (post, Err(VmError::GasExhausted))
                    } else {
                        (post, Ok(transferred_msg(amount)))
                    }
                } else {
                    (mid, Err(VmError::InsufficientBalance))
                }
            }
        } else {
            let post = charge(mid, FALLBACK_COST as nat);
            if post.gas_used > post.gas_limit as nat {
                (post, Err(VmError::GasExhausted))
            } else {
                (post, Ok(fallback_msg(method, args.len())))
            }
        }
    }
}

/// The transition of the generic execution entry point: a missing
/// contract is rejected with no effect; otherwise a fixed cost is charged
/// and a diagnostic about the input length is returned.  No byte of the
/// contract's code is interpreted.
pub open spec fn execute_tr(pre: VmView, address: Seq<char>, input: Seq<u8>) -> (VmView, Result<
    Seq<u8>,
    VmError,
>) {
    if !pre.contracts.contains_key(address) {
        (pre, Err(VmError::ContractNotFound))
    } else {
        (charge(pre, EXECUTE_COST as nat), Ok(executed_msg_bytes(input.len())))
    }
}

/// The transition of a deposit: not gas-metered; the contract's balance
/// grows by the amount.
pub open spec fn deposit_tr(pre: VmView, address: Seq<char>, amount: u64) -> (VmView, Result<
    (),
    VmError,
>) {
    if !pre.contracts.contains_key(address) {
        (pre, Err(VmError::ContractNotFound))
    } else {
        let c = pre.contracts[address];
        let c2 = ContractView {
            address: c.address,
            code: c.code,
            storage: c.storage,
            balance: (c.balance + amount) as nat,
        };
        (
            VmView {
                contracts: pre.contracts.insert(address, c2),
                gas_limit: pre.gas_limit,
                gas_used: pre.gas_used,
            },
            Ok(()),
        )
    }
}

/// Whether an executable string result refines a specified one: the same
/// variant, with equal characters or the same error.
pub open spec fn string_result_matches(r: Result<String, VmError>, s: Result<
    Seq<char>,
    VmError,
>) -> bool {
    match (r, s) {
        (Ok(rv), Ok(sv)) => rv@ == sv,
        (Err(re), Err(se)) => re == se,
        _ => false,
    }
}

/// Whether an executable byte result refines a specified one.
pub open spec fn bytes_result_matches(r: Result<Vec<u8>, VmError>, s: Result<
    Seq<u8>,
    VmError,
>) -> bool {
    match (r, s) {
        (Ok(rv), Ok(sv)) => rv@ == sv,
        (Err(re), Err(se)) => re == se,
        _ => false,
    }
}

/// One bounded execution session: it exclusively owns its contract
/// registry and gas counter for its lifetime.
pub struct WasmVM {
    contracts: Vec<WasmContract>,
    gas_limit: u64,
    gas_used: u64,
}

impl View for WasmVM {
    type V = VmView;

    closed spec fn view(&self) -> VmView {
        VmView {
            contracts: contracts_map(self.contracts@),
            gas_limit: self.gas_limit,
            gas_used: self.gas_used as nat,
        }
    }
}

impl WasmVM {
    /// The internal invariant: addresses are pairwise distinct and every
    /// contract's storage is well formed.
    pub closed spec fn wf(&self) -> bool {
        &&& addrs_distinct(self.contracts@)
        &&& forall|i: int| 0 <= i < self.contracts@.len() ==> (#[trigger] self.contracts@[i]).wf()
    }

    /// Creates a session with no contracts, a zero gas counter, and the
    /// given ceiling.
    pub fn new(gas_limit: u64) -> (r: WasmVM)
        ensures
            r.wf(),
            r@ == (VmView {
                contracts: Map::<Seq<char>, ContractView>::empty(),
                gas_limit,
                gas_used: 0nat,
            }),
    {
        let r = WasmVM { contracts: Vec::new(), gas_limit, gas_used: 0 };
        proof {
            assert(r@ =~= VmView {
                contracts: Map::<Seq<char>, ContractView>::empty(),
                gas_limit,
                gas_used: 0nat,
            });
        }
        r
    }

    /// The position of the contract at `address`, if one is deployed.
    fn find_contract(&self, address: &str) -> (r: Option<usize>)
        ensures
            match r {
                Some(i) => i < self.contracts@.len() && self.contracts@[i as int].address@
                    == address@,
                None => forall|i: int|
                    0 <= i < self.contracts@.len() ==> (#[trigger] self.contracts@[i]).address@
                        != address@,
            },
    {
        let mut i: usize = 0;
        let n = self.contracts.len();
        while i < n
            invariant
                0 <= i <= n,
                n == self.contracts@.len(),
                forall|j: int| 0 <= j < i ==> (#[trigger] self.contracts@[j]).address@ != address@,
            decreases n - i,
        {
            if str_eq(self.contracts[i].address.as_str(), address) {
                return Some(i);
            }
            i += 1;
        }
        None
    }

    /// Registers a contract at `address` after validating the code
    /// header, then charges the deploy cost.
    pub fn deploy_contract(&mut self, address: String, code: Vec<u8>) -> (r: Result<(), VmError>)
        requires
            old(self).wf(),
            !old(self)@.contracts.contains_key(address@) && magic_valid(code@) ==> old(
                self,
            )@.gas_used + DEPLOY_COST <= u64::MAX,
        ensures
            final(self).wf(),
            final(self)@ == deploy_tr(old(self)@, address@, code@).0,
            r == deploy_tr(old(self)@, address@, code@).1,
    {
        proof {
            lemma_contracts_map_contains(self.contracts@, address@);
        }
        if self.find_contract(address.as_str()).is_some() {
            return Err(VmError::DuplicateAddress);
        }
        if !validate_code(&code) {
            return Err(VmError::InvalidFormat);
        }
        let ghost pre = self.contracts@;
        let contract = WasmContract { address, code, storage: Storage::new(), balance: 0 };
        self.contracts.push(contract);
        self.gas_used = self.gas_used + DEPLOY_COST;
        proof {
            assert(self.contracts@.drop_last() =~= pre);
            assert(addrs_distinct(self.contracts@));
            assert(final(self)@ =~= deploy_tr(old(self)@, address@, code@).0);
        }
        Ok(())
    }

    /// Dispatches `method` on the contract at `address`: charges the base
    /// cost, checks the ceiling, then runs the matching built-in handler
    /// or the fixed-cost fallback, checking the ceiling again after any
    /// handler charge.  A handler's mutation precedes its charge, so it
    /// stands even when that last check fails the call.
    pub fn call_contract(&mut self, address: &str, method: &str, args: Vec<String>) -> (r: Result<
        String,
        VmError,
    >)
        requires
            old(self).wf(),
            old(self)@.gas_used + BASE_CALL_COST + extra_call_cost(method@) <= u64::MAX,
        ensures
            final(self).wf(),
            final(self)@ == call_tr(old(self)@, address@, method@, args.deep_view()).0,
            string_result_matches(r, call_tr(old(self)@, address@, method@, args.deep_view()).1),
    {
        let ghost spec_args = args.deep_view();
        self.gas_used = self.gas_used + BASE_CALL_COST;
        proof {
            assert(self@ =~= charge(old(self)@, BASE_CALL_COST as nat));
        }
        if self.gas_used > self.gas_limit {
            return Err(VmError::GasExhausted);
        }
        proof {
            lemma_contracts_map_contains(self.contracts@, address@);
        }
        let idx = match self.find_contract(address) {
            Some(i) => i,
            None => {
                return Err(VmError::ContractNotFound);
            },
        };
        proof {
            lemma_contracts_map_index(self.contracts@, idx as int);
        }
        if str_eq(method, "get_balance") {
            let b = self.contracts[idx].balance;
            Ok(u64_to_string(b))
        } else if str_eq(method, "get_storage") {
            if args.len() == 0 {
                Err(VmError::MissingArgument)
            } else {
                proof {
                    assert(spec_args[0] == args@[0]@);
                }
                match self.contracts[idx].storage.get(args[0].as_str()) {
                    Some(v) => Ok(v.clone()),
                    None => Ok(String::new()),
                }
            }
        } else if str_eq(method, "set_storage") {
            if args.len() < 2 {
                Err(VmError::MissingArgument)
            } else {
                let ghost s = self.contracts@;
                let key = args[0].clone();
                let value = args[1].clone();
                let msg = make_storage_set_msg(key.as_str(), value.as_str());
                let mut c = self.contracts.remove(idx);
                c.storage.set(key, value);
                let ghost c2 = c;
                self.contracts.insert(idx, c);
                self.gas_used = self.gas_used + SET_STORAGE_COST;
                proof {
                    assert(spec_args[0] == args@[0]@);
                    assert(spec_args[1] == args@[1]@);
                    assert(self.contracts@ =~= s.update(idx as int, c2));
                    lemma_contracts_map_update(s, idx as int, c2);
                    assert(addrs_distinct(self.contracts@)) by {
                        assert(forall|j: int|
                            0 <= j < s.len() && j != idx ==> (#[trigger] s[j]).address@
                                == self.contracts@[j].address@);
                    }
                    assert(self@ =~= call_tr(old(self)@, address@, method@, spec_args).0);
                }
                if self.gas_used > self.gas_limit {
                    return Err(VmError::GasExhausted);
                }
                Ok(msg)
            }
        } else if str_eq(method, "transfer") {
            if args.len() == 0 {
                Err(VmError::MissingArgument)
            } else {
                proof {
                    assert(spec_args[0] == args@[0]@);
                }
                let amount = parse_u64_or_zero(args[0].as_str());
                if self.contracts[idx].balance >= amount {
                    let ghost s = self.contracts@;
                    let mut c = self.contracts.remove(idx);
                    c.balance = c.balance - amount;
                    let ghost c2 = c;
                    self.contracts.insert(idx, c);
                    self.gas_used = self.gas_used + TRANSFER_COST;
                    proof {
                        assert(self.contracts@ =~= s.update(idx as int, c2));
                        lemma_contracts_map_update(s, idx as int, c2);
                        assert(addrs_distinct(self.contracts@)) by {
                            assert(forall|j: int|
                                0 <= j < s.len() && j != idx ==> (#[trigger] s[j]).address@
                                    == self.contracts@[j].address@);
                        }
                        assert(self@ =~= call_tr(old(self)@, address@, method@, spec_args).0);
                    }
                    if self.gas_used > self.gas_limit {
                        return Err(VmError::GasExhausted);
                    }
                    Ok(make_transferred_msg(amount))
                } else {
                    Err(VmError::InsufficientBalance)
                }
            }
        } else {
            self.gas_used = self.gas_used + FALLBACK_COST;
            let n = args.len();
            proof {
                assert(self@ =~= call_tr(old(self)@, address@, method@, spec_args).0);
            }
            if self.gas_used > self.gas_limit {
                return Err(VmError::GasExhausted);
            }
            Ok(make_fallback_msg(method, n as u64))
        }
    }

    /// The generic execution entry point: charges a fixed cost and
    /// reports the input length, interpreting no bytecode.
    pub fn execute_wasm(&mut self, address: &str, input: &[u8]) -> (r: Result<Vec<u8>, VmError>)
        requires
            old(self).wf(),
            old(self)@.contracts.contains_key(address@) ==> old(self)@.gas_used + EXECUTE_COST
                <= u64::MAX,
        ensures
            final(self).wf(),
            final(self)@ == execute_tr(old(self)@, address@, input@).0,
            bytes_result_matches(r, execute_tr(old(self)@, address@, input@).1),
    {
        proof {
            lemma_contracts_map_contains(self.contracts@, address@);
        }
        if self.find_contract(address).is_none() {
            return Err(VmError::ContractNotFound);
        }
        self.gas_used = self.gas_used + EXECUTE_COST;
        let n = input.len();
        proof {
            assert(self@ =~= execute_tr(old(self)@, address@, input@).0);
        }
        Ok(make_executed_msg_bytes(n as u64))
    }

    /// The gas consumed so far, overshoot included.
    pub fn get_gas_used(&self) -> (r: u64)
        ensures
            r as nat == self@.gas_used,
    {
        self.gas_used
    }

    /// The contract deployed at `address`, if any.
    pub fn get_contract(&self, address: &str) -> (r: Option<&WasmContract>)
        requires
            self.wf(),
        ensures
            match r {
                Some(c) => self@.contracts.contains_key(address@) && c@ == self@.contracts[address@]
                    && c.wf(),
                None => !self@.contracts.contains_key(address@),
            },
    {
        proof {
            lemma_contracts_map_contains(self.contracts@, address@);
        }
        match self.find_contract(address) {
            Some(i) => {
                proof {
                    lemma_contracts_map_index(self.contracts@, i as int);
                }
                Some(&self.contracts[i])
            },
            None => None,
        }
    }

    /// Credits `amount` to the contract at `address`; an administrative
    /// funding operation outside gas metering.
    pub fn deposit(&mut self, address: &str, amount: u64) -> (r: Result<(), VmError>)
        requires
            old(self).wf(),
            old(self)@.contracts.contains_key(address@) ==> old(self)@.contracts[address@].balance
                + amount <= u64::MAX,
        ensures
            final(self).wf(),
            final(self)@ == deposit_tr(old(self)@, address@, amount).0,
            r == deposit_tr(old(self)@, address@, amount).1,
    {
        proof {
            lemma_contracts_map_contains(self.contracts@, address@);
        }
        let idx = match self.find_contract(address) {
            Some(i) => i,
            None => {
                return Err(VmError::ContractNotFound);
            },
        };
        proof {
            lemma_contracts_map_index(self.contracts@, idx as int);
        }
        let ghost s = self.contracts@;
        let mut c = self.contracts.remove(idx);
        c.balance = c.balance + amount;
        let ghost c2 = c;
        self.contracts.insert(idx, c);
        proof {
            assert(self.contracts@ =~= s.update(idx as int, c2));
            lemma_contracts_map_update(s, idx as int, c2);
            assert(addrs_distinct(self.contracts@)) by {
                assert(forall|j: int|
                    0 <= j < s.len() && j != idx ==> (#[trigger] s[j]).address@
                        == self.contracts@[j].address@);
            }
            assert(self@ =~= deposit_tr(old(self)@, address@, amount).0);
        }
        Ok(())
    }
}

} // verus!
