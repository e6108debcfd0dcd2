//! Content hashes that identify I/O trace logs and hot applications.

use vstd::prelude::*;

verus! {

/// Start value of the 64 bit FNV-1a hash.
pub open spec fn fnv_offset_basis() -> u64 {
    0xcbf29ce484222325
}

/// Multiplier of the 64 bit FNV-1a hash.
pub open spec fn fnv_prime() -> u64 {
    0x100000001b3
}

/// One FNV-1a round: xor the byte in, then multiply modulo 2^64.
pub open spec fn fnv1a_step(h: u64, b: u8) -> u64 {
    (((h ^ (b as u64)) as nat * fnv_prime() as nat) % 0x1_0000_0000_0000_0000nat) as u64
}

/// FNV-1a of `bytes`, continuing from the state `h`.
pub open spec fn fnv1a_from(h: u64, bytes: Seq<u8>) -> u64
    decreases bytes.len(),
{
    if bytes.len() == 0 {
        h
    } else {
        fnv1a_from(fnv1a_step(h, bytes[0]), bytes.drop_first())
    }
}

/// The hash of two byte strings fed one after the other into a fresh hasher.
pub open spec fn fnv1a_pair(first: Seq<u8>, second: Seq<u8>) -> u64 {
    fnv1a_from(fnv1a_from(fnv_offset_basis(), first), second)
}

/// The digit character for `d < 10`.
pub open spec fn digit_char(d: nat) -> char {
    ((('0' as u32) as nat) + d) as char
}

/// Decimal notation of `n`, without sign or leading zeros.
pub open spec fn decimal(n: nat) -> Seq<char>
    decreases n,
{
    if n < 10 {
        seq![digit_char(n)]
    } else {
        decimal(n / 10).push(digit_char(n % 10))
    }
}

/// `fnv::FnvHasher`: a default hasher, `write` of `first`, `write` of
/// `second`, then `finish`. The crate's source computes 64 bit FNV-1a
/// (xor each byte into the state, then a wrapping multiply by the FNV prime,
/// starting from the FNV offset basis); the contract states exactly that.
#[verifier::external_body]
pub(crate) fn fnv_hash_pair(first: &[u8], second: &[u8]) -> (h: u64)
    ensures
        h == fnv1a_pair(first@, second@),
{
    let mut hasher = <fnv::FnvHasher as std::default::Default>::default();
    std::hash::Hasher::write(&mut hasher, first);
    std::hash::Hasher::write(&mut hasher, second);
    std::hash::Hasher::finish(&hasher)
}

/// `u64::to_string`: std formats an unsigned integer in decimal, with no
/// sign, padding or leading zeros.
#[verifier::external_body]
pub(crate) fn decimal_string(n: u64) -> (s: String)
    ensures
        s@ == decimal(n as nat),
{
    n.to_string()
}

/// The textual hash of an executable and its command line, as it names the
/// I/O trace log and the hot-applications entry of that program: the
/// decimal notation of the FNV-1a hash of the executable's path followed by
/// the command line.
pub open spec fn program_hash(exe: Seq<char>, cmdline: Seq<char>) -> Seq<char> {
    decimal(fnv1a_pair(vstd::utf8::encode_utf8(exe), vstd::utf8::encode_utf8(cmdline)) as nat)
}

/// Compute `program_hash` of an executable path and a command line.
pub fn hash_program(exe: &String, cmdline: &String) -> (h: String)
    ensures
        h@ == program_hash(exe@, cmdline@),
{
    let a = exe.as_str().as_bytes();
    let b = cmdline.as_str().as_bytes();
    let v = fnv_hash_pair(a, b);
    decimal_string(v)
}

} // verus!
