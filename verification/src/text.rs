//! String helpers for the dispatcher: character-exact equality on string
//! slices, and the builders for the messages the handlers return.

use vstd::prelude::*;
use crate::decimal::{dec_str, u64_to_string};

verus! {

/// Whether two string slices hold the same characters.
pub fn str_eq(a: &str, b: &str) -> (r: bool)
    ensures
        r == (a@ == b@),
{
    let alen = a.unicode_len();
    let blen = b.unicode_len();
    if alen != blen {
        return false;
    }
    let mut i: usize = 0;
    while i < alen
        invariant
            0 <= i <= alen,
            alen == a@.len(),
            alen == b@.len(),
            forall|j: int| 0 <= j < i ==> a@[j] == b@[j],
        decreases alen - i,
    {
        if a.get_char(i) != b.get_char(i) {
            return false;
        }
        i += 1;
    }
    proof {
        assert(a@ =~= b@);
    }
    true
}

/// The confirmation message of the `set_storage` handler.
pub open spec fn storage_set_msg(key: Seq<char>, value: Seq<char>) -> Seq<char> {
    "Storage set: "@ + key + " = "@ + value
}

/// Builds the `set_storage` confirmation message.
pub fn make_storage_set_msg(key: &str, value: &str) -> (r: String)
    ensures
        r@ == storage_set_msg(key@, value@),
{
    let mut r = String::from_str("Storage set: ");
    r.append(key);
    r.append(" = ");
    r.append(value);
    r
}

/// The confirmation message of the `transfer` handler.
pub open spec fn transferred_msg(amount: nat) -> Seq<char> {
    "Transferred: "@ + dec_str(amount)
}

/// Builds the `transfer` confirmation message.
pub fn make_transferred_msg(amount: u64) -> (r: String)
    ensures
        r@ == transferred_msg(amount as nat),
{
    let mut r = String::from_str("Transferred: ");
    let digits = u64_to_string(amount);
    r.append(digits.as_str());
    r
}

/// The diagnostic message of the fallback handler for an unrecognized
/// method name.
pub open spec fn fallback_msg(method: Seq<char>, n_args: nat) -> Seq<char> {
    "WASM method '"@ + method + "' executed with "@ + dec_str(n_args) + " args"@
}

/// Builds the fallback handler's diagnostic message.
pub fn make_fallback_msg(method: &str, n_args: u64) -> (r: String)
    ensures
        r@ == fallback_msg(method@, n_args as nat),
{
    let mut r = String::from_str("WASM method '");
    r.append(method);
    r.append("' executed with ");
    let digits = u64_to_string(n_args);
    r.append(digits.as_str());
    r.append(" args");
    r
}

/// The diagnostic message of the generic execution entry point, as the
/// sequence of characters it is built from.
pub open spec fn executed_msg(n_bytes: nat) -> Seq<char> {
    "WASM executed for "@ + dec_str(n_bytes) + " bytes input"@
}

/// The generic execution diagnostic as bytes: every character of the
/// message is ASCII, so each becomes the single byte it narrows to.
pub open spec fn executed_msg_bytes(n_bytes: nat) -> Seq<u8> {
    executed_msg(n_bytes).map_values(|c: char| c as u8)
}

/// Builds the generic execution diagnostic as a byte vector.
pub fn make_executed_msg_bytes(n_bytes: u64) -> (r: Vec<u8>)
    ensures
        r@ == executed_msg_bytes(n_bytes as nat),
{
    let mut msg = String::from_str("WASM executed for ");
    let digits = u64_to_string(n_bytes);
    msg.append(digits.as_str());
    msg.append(" bytes input");
    let ghost chars = executed_msg(n_bytes as nat);
    let s = msg.as_str();
    let len = s.unicode_len();
    let mut r: Vec<u8> = Vec::new();
    let mut i: usize = 0;
    while i < len
        invariant
            0 <= i <= len,
            len == chars.len(),
            s@ == chars,
            r@ =~= chars.subrange(0, i as int).map_values(|c: char| c as u8),
        decreases len - i,
    {
        let c = s.get_char(i);
        r.push(c as u8);
        proof {
            assert(chars.subrange(0, i + 1).drop_last() =~= chars.subrange(0, i as int));
            assert(chars.subrange(0, i + 1).map_values(|ch: char| ch as u8).drop_last() =~= chars
                .subrange(0, i as int).map_values(|ch: char| ch as u8));
            assert(r@ =~= chars.subrange(0, i + 1).map_values(|ch: char| ch as u8));
        }
        i += 1;
    }
    proof {
        assert(chars.subrange(0, len as int) =~= chars);
    }
    r
}

} // verus!
