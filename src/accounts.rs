use vstd::prelude::*;
use sp_runtime::ModuleId;
use sp_runtime::traits::AccountIdConversion;
use crate::types::AccountId;

verus! {

/// Byte `i` of `b"modl"` followed by the module identifier `id` and zeros.
pub open spec fn module_byte(id: Seq<u8>, i: int) -> u8 {
    if i == 0 {
        0x6d
    } else if i == 1 {
        0x6f
    } else if i == 2 {
        0x64
    } else if i == 3 {
        0x6c
    } else if i < 12 {
        id[i - 4]
    } else {
        0
    }
}

/// The 32 bytes of the account that sp_runtime derives from `id`.
pub open spec fn module_bytes(id: Seq<u8>) -> Seq<u8> {
    Seq::new(32, |i: int| module_byte(id, i))
}

/// Byte `i` of `b"modl"`, `id`, the one-byte length prefix of the ASCII
/// string `sub` (its length times four), the bytes of `sub`, and zeros.
pub open spec fn sub_byte(id: Seq<u8>, sub: Seq<char>, i: int) -> u8 {
    if i < 12 {
        module_byte(id, i)
    } else if i == 12 {
        (4 * sub.len()) as u8
    } else if i < 13 + sub.len() {
        sub[i - 13] as u8
    } else {
        0
    }
}

/// The 32 bytes of the account that sp_runtime derives from `id` and the sub-path `sub`.
pub open spec fn sub_bytes(id: Seq<u8>, sub: Seq<char>) -> Seq<u8> {
    Seq::new(32, |i: int| sub_byte(id, sub, i))
}

/// The little-endian word read from bytes `8 * k .. 8 * k + 8` of `b`.
pub open spec fn word_of(b: Seq<u8>, k: int) -> u64 {
    (b[8 * k] as int
        + b[8 * k + 1] as int * 0x100
        + b[8 * k + 2] as int * 0x1_0000
        + b[8 * k + 3] as int * 0x100_0000
        + b[8 * k + 4] as int * 0x1_0000_0000
        + b[8 * k + 5] as int * 0x100_0000_0000
        + b[8 * k + 6] as int * 0x1_0000_0000_0000
        + b[8 * k + 7] as int * 0x100_0000_0000_0000) as u64
}

/// The account whose 32 bytes are `b`.
pub open spec fn account_of(b: Seq<u8>) -> AccountId {
    AccountId(word_of(b, 0), word_of(b, 1), word_of(b, 2), word_of(b, 3))
}

/// The guild bank: the account derived from the module identifier alone.
pub open spec fn bank_of(id: Seq<u8>) -> AccountId {
    account_of(module_bytes(id))
}

/// The custody account: the account derived with the sub-path `custody`.
pub open spec fn custody_of(id: Seq<u8>) -> AccountId {
    account_of(sub_bytes(id, "custody"@))
}

/// Relies on `AccountIdConversion::into_account` of sp_runtime's `ModuleId`,
/// which decodes a 32-byte account from `(b"modl", id)` encoded and padded
/// with zeros.
#[verifier::external_body]
fn into_account(id: [u8; 8]) -> (r: [u8; 32])
    ensures
        r@ == module_bytes(id@),
{
    ModuleId(id).into_account()
}

/// Relies on `AccountIdConversion::into_sub_account` of sp_runtime's
/// `ModuleId`, which decodes a 32-byte account from `(b"modl", id, sub)`
/// encoded and padded with zeros; an ASCII `sub` shorter than 20 characters
/// is encoded as its length times four in one byte, then its bytes.
#[verifier::external_body]
fn into_sub_account(id: [u8; 8], sub: &str) -> (r: [u8; 32])
    requires
        sub@.len() < 20,
        forall|j: int| 0 <= j < sub@.len() ==> (sub@[j] as u32) < 128,
    ensures
        r@ == sub_bytes(id@, sub@),
{
    ModuleId(id).into_sub_account(sub)
}

/// The little-endian word read from bytes `8 * k .. 8 * k + 8` of `b`.
fn word_at(b: &[u8; 32], k: usize) -> (r: u64)
    requires
        k < 4,
    ensures
        r == word_of(b@, k as int),
{
    let s: usize = 8 * k;
    b[s] as u64
        + b[s + 1] as u64 * 0x100
        + b[s + 2] as u64 * 0x1_0000
        + b[s + 3] as u64 * 0x100_0000
        + b[s + 4] as u64 * 0x1_0000_0000
        + b[s + 5] as u64 * 0x100_0000_0000
        + b[s + 6] as u64 * 0x1_0000_0000_0000
        + b[s + 7] as u64 * 0x100_0000_0000_0000
}

/// The account whose 32 bytes are `b`.
fn account_from_bytes(b: &[u8; 32]) -> (r: AccountId)
    ensures
        r == account_of(b@),
{
    AccountId(word_at(b, 0), word_at(b, 1), word_at(b, 2), word_at(b, 3))
}

/// The guild bank account of the module `id`.
pub fn bank_account_of(id: [u8; 8]) -> (r: AccountId)
    ensures
        r == bank_of(id@),
{
    let b = into_account(id);
    account_from_bytes(&b)
}

/// The custody account of the module `id`.
pub fn custody_account_of(id: [u8; 8]) -> (r: AccountId)
    ensures
        r == custody_of(id@),
{
    proof {
        reveal_strlit("custody");
    }
    let b = into_sub_account(id, "custody");
    account_from_bytes(&b)
}

/// The custody account and the guild bank are two different accounts: their
/// third words differ, `tody` in custody and zeros in the bank.
pub proof fn lemma_custody_is_not_bank(id: Seq<u8>)
    requires
        id.len() == 8,
    ensures
        custody_of(id) != bank_of(id),
{
    reveal_strlit("custody");
    assert(module_bytes(id)[16] == 0);
    assert(sub_bytes(id, "custody"@)[16] == 0x74);
    assert(word_of(module_bytes(id), 2) == 0);
    assert(word_of(sub_bytes(id, "custody"@), 2) != 0);
}

} // verus!
