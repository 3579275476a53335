//! Short codes: the leading 32 bits of a SHA-256 digest of the long URL,
//! written as upper-case hexadecimal without leading zeros.
use sha2::Digest;
use vstd::prelude::*;

verus! {

/// The SHA-256 digest of the UTF-8 encoding of a string.
pub uninterp spec fn sha256_of(s: Seq<char>) -> Seq<u8>;

/// Relies on sha2::Sha256::digest: the 32-byte SHA-256 digest of the bytes given.
#[verifier::external_body]
fn sha256_digest(value: &str) -> (r: Vec<u8>)
    ensures
        r@ == sha256_of(value@),
        r@.len() == 32,
{
    sha2::Sha256::digest(value.as_bytes()).to_vec()
}

/// The upper-case hexadecimal digit of a value below 16.
pub open spec fn hex_char(d: nat) -> char {
    seq!['0', '1', '2', '3', '4', '5', '6', '7', '8', '9', 'A', 'B', 'C', 'D', 'E', 'F'][d as int]
}

/// `n` in upper-case hexadecimal, most significant digit first, no leading zeros.
pub open spec fn hex_upper(n: nat) -> Seq<char>
    decreases n,
{
    if n < 16 {
        seq![hex_char(n)]
    } else {
        hex_upper(n / 16).push(hex_char(n % 16))
    }
}

/// The first four bytes of `d`, read as a big-endian integer.
pub open spec fn be_u32(d: Seq<u8>) -> nat {
    (d[0] as nat) * 0x1000000 + (d[1] as nat) * 0x10000 + (d[2] as nat) * 0x100 + (d[3] as nat)
}

/// The short code of a digest.
pub open spec fn code_of_digest(d: Seq<u8>) -> Seq<char> {
    hex_upper(be_u32(d))
}

/// The short code of a long URL.
pub open spec fn short_code_of(long_url: Seq<char>) -> Seq<char> {
    code_of_digest(sha256_of(long_url))
}

fn hex_digit_str(d: u32) -> (r: &'static str)
    requires
        d < 16,
    ensures
        r@ == seq![hex_char(d as nat)],
{
    let digits = "0123456789ABCDEF";
    proof {
        reveal_strlit("0123456789ABCDEF");
    }
    assert(digits@ =~= seq!['0', '1', '2', '3', '4', '5', '6', '7', '8', '9', 'A', 'B', 'C', 'D', 'E', 'F']);
    let r = digits.substring_char(d as usize, d as usize + 1);
    assert(r@ =~= seq![hex_char(d as nat)]);
    r
}

/// Formats `n` in upper-case hexadecimal without leading zeros.
pub fn hex_string(n: u32) -> (r: String)
    ensures
        r@ == hex_upper(n as nat),
    decreases n,
{
    if n < 16 {
        String::from_str(hex_digit_str(n))
    } else {
        let mut s = hex_string(n / 16);
        s.append(hex_digit_str(n % 16));
        s
    }
}

/// The short code of a digest: its first four bytes as a big-endian integer,
/// in upper-case hexadecimal.
pub fn code_from_digest(digest: &[u8]) -> (r: String)
    requires
        digest@.len() >= 4,
    ensures
        r@ == code_of_digest(digest@),
{
    let n: u32 = (digest[0] as u32) * 0x1000000 + (digest[1] as u32) * 0x10000 + (digest[2] as u32)
        * 0x100 + (digest[3] as u32);
    hex_string(n)
}

/// The short code of `value_to_hash`.
pub fn hash(value_to_hash: &str) -> (r: String)
    ensures
        r@ == short_code_of(value_to_hash@),
{
    let digest = sha256_digest(value_to_hash);
    code_from_digest(digest.as_slice())
}

} // verus!
