//! Session-level laws: proved consequences of the transition functions
//! that specify the executable methods.  Each law is stated over
//! [`VmView`] values, so it holds of every session the library can build.

use vstd::prelude::*;
use crate::contract::magic_valid;
use crate::decimal::{amount_of, dec_str};
use crate::text::{fallback_msg, transferred_msg};
use crate::vm::{
    call_tr, deploy_tr, deposit_tr, execute_tr, VmError, VmView, BASE_CALL_COST, DEPLOY_COST,
    FALLBACK_COST, SET_STORAGE_COST, TRANSFER_COST,
};

verus! {

/// The five built-in method names are pairwise distinct, so exactly one
/// handler matches a call.
proof fn lemma_method_names_distinct()
    ensures
        "get_balance"@ != "get_storage"@,
        "get_balance"@ != "set_storage"@,
        "get_balance"@ != "transfer"@,
        "get_storage"@ != "set_storage"@,
        "get_storage"@ != "transfer"@,
        "set_storage"@ != "transfer"@,
{
    reveal_strlit("get_balance");
    reveal_strlit("get_storage");
    reveal_strlit("set_storage");
    reveal_strlit("transfer");
    assert("get_balance"@[4] != "get_storage"@[4]);
    assert("get_balance"@[0] != "set_storage"@[0]);
    assert("get_balance"@.len() != "transfer"@.len());
    assert("get_storage"@[0] != "set_storage"@[0]);
    assert("get_storage"@.len() != "transfer"@.len());
    assert("set_storage"@.len() != "transfer"@.len());
}

/// Deploying at an address that a successful deploy already filled fails
/// with `DuplicateAddress` and leaves the whole session — the first
/// contract's state included — untouched.
pub proof fn lemma_deploy_duplicate_fails(
    pre: VmView,
    address: Seq<char>,
    code1: Seq<u8>,
    code2: Seq<u8>,
)
    requires
        deploy_tr(pre, address, code1).1 is Ok,
    ensures
        deploy_tr(deploy_tr(pre, address, code1).0, address, code2).1 == Result::<
            (),
            VmError,
        >::Err(VmError::DuplicateAddress),
        deploy_tr(deploy_tr(pre, address, code1).0, address, code2).0 == deploy_tr(
            pre,
            address,
            code1,
        ).0,
{
}

/// Deploying code without the 4-byte magic header at a free address fails
/// with `InvalidFormat` and registers nothing.
pub proof fn lemma_deploy_invalid_format(pre: VmView, address: Seq<char>, code: Seq<u8>)
    requires
        !pre.contracts.contains_key(address),
        !magic_valid(code),
    ensures
        deploy_tr(pre, address, code).1 == Result::<(), VmError>::Err(VmError::InvalidFormat),
        deploy_tr(pre, address, code).0 == pre,
{
}

/// A successful deploy charges exactly the deploy cost; a failed one
/// charges nothing.
pub proof fn lemma_deploy_gas(pre: VmView, address: Seq<char>, code: Seq<u8>)
    ensures
        deploy_tr(pre, address, code).1 is Ok ==> deploy_tr(pre, address, code).0.gas_used
            == pre.gas_used + DEPLOY_COST,
        deploy_tr(pre, address, code).1 is Err ==> deploy_tr(pre, address, code).0.gas_used
            == pre.gas_used,
{
}

/// `get_balance` on a freshly deployed contract answers `"0"`, provided
/// the base call charge stays within the ceiling.
pub proof fn lemma_fresh_contract_balance_zero(
    pre: VmView,
    address: Seq<char>,
    code: Seq<u8>,
    args: Seq<Seq<char>>,
)
    requires
        deploy_tr(pre, address, code).1 is Ok,
        deploy_tr(pre, address, code).0.gas_used + BASE_CALL_COST <= pre.gas_limit,
    ensures
        call_tr(deploy_tr(pre, address, code).0, address, "get_balance"@, args).1 == Result::<
            Seq<char>,
            VmError,
        >::Ok("0"@),
{
    reveal_strlit("0");
    assert(dec_str(0) =~= "0"@);
}

/// Writing a key and reading it back within one session returns the
/// written value, provided both calls stay within the gas ceiling.
pub proof fn lemma_storage_round_trip(
    pre: VmView,
    address: Seq<char>,
    set_args: Seq<Seq<char>>,
    get_args: Seq<Seq<char>>,
)
    requires
        pre.contracts.contains_key(address),
        set_args.len() >= 2,
        get_args.len() >= 1,
        get_args[0] == set_args[0],
        pre.gas_used + BASE_CALL_COST + SET_STORAGE_COST <= pre.gas_limit,
        call_tr(pre, address, "set_storage"@, set_args).0.gas_used + BASE_CALL_COST
            <= pre.gas_limit,
    ensures
        call_tr(
            call_tr(pre, address, "set_storage"@, set_args).0,
            address,
            "get_storage"@,
            get_args,
        ).1 == Result::<Seq<char>, VmError>::Ok(set_args[1]),
{
    lemma_method_names_distinct();
}

/// Reading a key that was never written returns the empty string,
/// provided the call stays within the gas ceiling.
pub proof fn lemma_storage_unwritten_key_empty(
    pre: VmView,
    address: Seq<char>,
    get_args: Seq<Seq<char>>,
)
    requires
        pre.contracts.contains_key(address),
        get_args.len() >= 1,
        !pre.contracts[address].storage.contains_key(get_args[0]),
        pre.gas_used + BASE_CALL_COST <= pre.gas_limit,
    ensures
        call_tr(pre, address, "get_storage"@, get_args).1 == Result::<Seq<char>, VmError>::Ok(
            Seq::<char>::empty(),
        ),
{
    lemma_method_names_distinct();
}

/// A transfer of more than the contract holds fails with
/// `InsufficientBalance` and changes no contract — the balance stays as it
/// was; only the base call charge is kept.
pub proof fn lemma_transfer_insufficient_balance(
    pre: VmView,
    address: Seq<char>,
    args: Seq<Seq<char>>,
)
    requires
        pre.contracts.contains_key(address),
        args.len() >= 1,
        amount_of(args[0]) > pre.contracts[address].balance,
        pre.gas_used + BASE_CALL_COST <= pre.gas_limit,
    ensures
        call_tr(pre, address, "transfer"@, args).1 == Result::<Seq<char>, VmError>::Err(
            VmError::InsufficientBalance,
        ),
        call_tr(pre, address, "transfer"@, args).0.contracts == pre.contracts,
        call_tr(pre, address, "transfer"@, args).0.gas_used == pre.gas_used + BASE_CALL_COST,
{
    lemma_method_names_distinct();
}

/// Depositing an amount and then transferring exactly that amount
/// succeeds, confirms the amount, and returns the balance to what it was
/// before the deposit, provided the transfer stays within the gas ceiling.
pub proof fn lemma_deposit_then_transfer(
    pre: VmView,
    address: Seq<char>,
    amount: u64,
    args: Seq<Seq<char>>,
)
    requires
        pre.contracts.contains_key(address),
        args.len() >= 1,
        amount_of(args[0]) == amount,
        pre.gas_used + BASE_CALL_COST + TRANSFER_COST <= pre.gas_limit,
    ensures
        ({
            let s1 = deposit_tr(pre, address, amount).0;
            let (s2, r2) = call_tr(s1, address, "transfer"@, args);
            r2 == Result::<Seq<char>, VmError>::Ok(transferred_msg(amount as nat))
                && s2.contracts[address].balance == pre.contracts[address].balance
        }),
{
    lemma_method_names_distinct();
}

/// `get_balance` answers the decimal string of the contract's current
/// balance, provided the base call charge stays within the ceiling.
pub proof fn lemma_get_balance_reports_balance(
    pre: VmView,
    address: Seq<char>,
    args: Seq<Seq<char>>,
)
    requires
        pre.contracts.contains_key(address),
        pre.gas_used + BASE_CALL_COST <= pre.gas_limit,
    ensures
        call_tr(pre, address, "get_balance"@, args).1 == Result::<Seq<char>, VmError>::Ok(
            dec_str(pre.contracts[address].balance),
        ),
        call_tr(pre, address, "get_balance"@, args).0.contracts == pre.contracts,
{
}

/// Only `set_storage` and `transfer` ever change a contract: calls of
/// every other method leave the whole registry as it was, and so does
/// every failure except a gas exhaustion raised by a handler's own
/// charge, which keeps the already-applied write or decrement.
pub proof fn lemma_call_mutates_only_writes(
    pre: VmView,
    address: Seq<char>,
    method: Seq<char>,
    args: Seq<Seq<char>>,
)
    ensures
        method != "set_storage"@ && method != "transfer"@ ==> call_tr(
            pre,
            address,
            method,
            args,
        ).0.contracts == pre.contracts,
        call_tr(pre, address, method, args).1 is Err && call_tr(pre, address, method, args).1
            != Result::<Seq<char>, VmError>::Err(VmError::GasExhausted) ==> call_tr(
            pre,
            address,
            method,
            args,
        ).0.contracts == pre.contracts,
{
}

/// One operation of a session, by its mathematical arguments.
pub ghost enum VmOp {
    Deploy { address: Seq<char>, code: Seq<u8> },
    Call { address: Seq<char>, method: Seq<char>, args: Seq<Seq<char>> },
    Execute { address: Seq<char>, input: Seq<u8> },
    Deposit { address: Seq<char>, amount: u64 },
}

/// The session an operation leaves behind, whether it succeeded or
/// failed.
pub open spec fn step_tr(pre: VmView, op: VmOp) -> VmView {
    match op {
        VmOp::Deploy { address, code } => deploy_tr(pre, address, code).0,
        VmOp::Call { address, method, args } => call_tr(pre, address, method, args).0,
        VmOp::Execute { address, input } => execute_tr(pre, address, input).0,
        VmOp::Deposit { address, amount } => deposit_tr(pre, address, amount).0,
    }
}

/// The session after a whole sequence of operations.
pub open spec fn run_tr(pre: VmView, ops: Seq<VmOp>) -> VmView
    decreases ops.len(),
{
    if ops.len() == 0 {
        pre
    } else {
        run_tr(step_tr(pre, ops[0]), ops.drop_first())
    }
}

/// No single operation lowers the gas counter, however it ends.
pub proof fn lemma_step_gas_monotonic(pre: VmView, op: VmOp)
    ensures
        step_tr(pre, op).gas_used >= pre.gas_used,
{
}

/// The gas counter is non-decreasing across any sequence of operations
/// within a session, failed ones included.
pub proof fn lemma_run_gas_monotonic(pre: VmView, ops: Seq<VmOp>)
    ensures
        run_tr(pre, ops).gas_used >= pre.gas_used,
    decreases ops.len(),
{
    if ops.len() > 0 {
        lemma_step_gas_monotonic(pre, ops[0]);
        lemma_run_gas_monotonic(step_tr(pre, ops[0]), ops.drop_first());
    }
}

/// No operation undeploys a contract or changes deployed code: whatever
/// address a session holds, it holds after any operation, with the same
/// code.
pub proof fn lemma_step_preserves_deployed(pre: VmView, op: VmOp)
    ensures
        forall|a: Seq<char>|
            pre.contracts.contains_key(a) ==> #[trigger] step_tr(pre, op).contracts.contains_key(a)
                && step_tr(pre, op).contracts[a].code == pre.contracts[a].code,
{
}

/// Deployed addresses and their code survive any sequence of operations.
pub proof fn lemma_run_preserves_deployed(pre: VmView, ops: Seq<VmOp>)
    ensures
        forall|a: Seq<char>|
            pre.contracts.contains_key(a) ==> #[trigger] run_tr(pre, ops).contracts.contains_key(a)
                && run_tr(pre, ops).contracts[a].code == pre.contracts[a].code,
    decreases ops.len(),
{
    if ops.len() > 0 {
        let mid = step_tr(pre, ops[0]);
        lemma_step_preserves_deployed(pre, ops[0]);
        lemma_run_preserves_deployed(mid, ops.drop_first());
        assert forall|a: Seq<char>| pre.contracts.contains_key(a) implies #[trigger] run_tr(
            pre,
            ops,
        ).contracts.contains_key(a) && run_tr(pre, ops).contracts[a].code
            == pre.contracts[a].code by {
            assert(mid.contracts.contains_key(a));
            assert(run_tr(mid, ops.drop_first()).contracts.contains_key(a));
        }
    }
}

/// Once the counter stands above the ceiling, every further call fails at
/// the base charge with `GasExhausted`; the charge is still recorded, so
/// the counter stays above the ceiling and the failure repeats.
pub proof fn lemma_exhausted_session_rejects_calls(
    pre: VmView,
    address: Seq<char>,
    method: Seq<char>,
    args: Seq<Seq<char>>,
)
    requires
        pre.gas_used > pre.gas_limit,
    ensures
        call_tr(pre, address, method, args).1 == Result::<Seq<char>, VmError>::Err(
            VmError::GasExhausted,
        ),
        call_tr(pre, address, method, args).0.contracts == pre.contracts,
        call_tr(pre, address, method, args).0.gas_used == pre.gas_used + BASE_CALL_COST,
        call_tr(pre, address, method, args).0.gas_used > call_tr(
            pre,
            address,
            method,
            args,
        ).0.gas_limit,
{
}

/// An unrecognized method name runs the fallback: the base and fallback
/// costs are charged and no contract's storage or balance changes.  When
/// the charges stay within the ceiling the diagnostic names the method
/// and the argument count; when the fallback charge crosses it, the call
/// fails with `GasExhausted`, the full charge kept.
pub proof fn lemma_fallback_mutates_nothing(
    pre: VmView,
    address: Seq<char>,
    method: Seq<char>,
    args: Seq<Seq<char>>,
)
    requires
        pre.contracts.contains_key(address),
        method != "get_balance"@,
        method != "get_storage"@,
        method != "set_storage"@,
        method != "transfer"@,
        pre.gas_used + BASE_CALL_COST <= pre.gas_limit,
    ensures
        call_tr(pre, address, method, args).0.contracts == pre.contracts,
        call_tr(pre, address, method, args).0.gas_used == pre.gas_used + BASE_CALL_COST
            + FALLBACK_COST,
        pre.gas_used + BASE_CALL_COST + FALLBACK_COST <= pre.gas_limit ==> call_tr(
            pre,
            address,
            method,
            args,
        ).1 == Result::<Seq<char>, VmError>::Ok(fallback_msg(method, args.len())),
        pre.gas_used + BASE_CALL_COST + FALLBACK_COST > pre.gas_limit ==> call_tr(
            pre,
            address,
            method,
            args,
        ).1 == Result::<Seq<char>, VmError>::Err(VmError::GasExhausted),
{
}

} // verus!
