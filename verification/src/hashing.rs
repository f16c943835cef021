//! SHA-256 digests and their lowercase hexadecimal form.

use sha2::Digest;
use vstd::prelude::*;

verus! {

/// The SHA-256 digest of a byte sequence, as the `sha2` crate computes it.
pub uninterp spec fn sha256_digest(data: Seq<u8>) -> Seq<u8>;

/// Calls `sha2::Sha256::digest` (through the `digest::Digest` trait), which
/// hashes `data` in one pass. Trusted: the result is the digest of exactly
/// these bytes, and it is 32 bytes long (`Sha256` has output size `U32`).
#[verifier::external_body]
pub(crate) fn sha256(data: &[u8]) -> (r: Vec<u8>)
    ensures
        r@ == sha256_digest(data@),
        r@.len() == 32,
{
    sha2::Sha256::digest(data).to_vec()
}

/// The sixteen lowercase hexadecimal digits, in order.
pub open spec fn hex_digits() -> Seq<char> {
    seq!['0', '1', '2', '3', '4', '5', '6', '7', '8', '9', 'a', 'b', 'c', 'd', 'e', 'f']
}

/// The two lowercase hexadecimal digits of a byte, high nibble first.
pub open spec fn hex_pair(b: u8) -> Seq<char> {
    seq![hex_digits()[(b / 16) as int], hex_digits()[(b % 16) as int]]
}

/// The lowercase hexadecimal text of a byte sequence: two digits per byte.
pub open spec fn lower_hex(bytes: Seq<u8>) -> Seq<char>
    decreases bytes.len(),
{
    if bytes.len() == 0 {
        Seq::empty()
    } else {
        lower_hex(bytes.drop_last()) + hex_pair(bytes.last())
    }
}

/// The lowercase hexadecimal text of a byte sequence has two digits per byte.
pub proof fn lemma_lower_hex_len(bytes: Seq<u8>)
    ensures
        lower_hex(bytes).len() == 2 * bytes.len(),
    decreases bytes.len(),
{
    if bytes.len() > 0 {
        lemma_lower_hex_len(bytes.drop_last());
    }
}

/// The code of each hexadecimal digit: `'0'..'9'` for 0 to 9, `'a'..'f'` for 10 to 15.
proof fn lemma_hex_digit_codes()
    ensures
        forall|n: int|
            #![trigger hex_digits()[n]]
            0 <= n < 16 ==> (hex_digits()[n] as u32) == (if n < 10 {
                48 + n
            } else {
                87 + n
            }),
{
    let d = hex_digits();
    assert(d[0] as u32 == 48);
    assert(d[1] as u32 == 49);
    assert(d[2] as u32 == 50);
    assert(d[3] as u32 == 51);
    assert(d[4] as u32 == 52);
    assert(d[5] as u32 == 53);
    assert(d[6] as u32 == 54);
    assert(d[7] as u32 == 55);
    assert(d[8] as u32 == 56);
    assert(d[9] as u32 == 57);
    assert(d[10] as u32 == 97);
    assert(d[11] as u32 == 98);
    assert(d[12] as u32 == 99);
    assert(d[13] as u32 == 100);
    assert(d[14] as u32 == 101);
    assert(d[15] as u32 == 102);
}

/// The hexadecimal text of a byte sequence is two characters per byte, with no
/// exception for leading bytes: at `2i` the digit of byte `i`'s high nibble, at
/// `2i + 1` that of its low nibble, each `'0'..'9'` for 0 to 9 and `'a'..'f'`
/// for 10 to 15. So every character is a lowercase hexadecimal digit.
pub proof fn lemma_lower_hex_digits(bytes: Seq<u8>)
    ensures
        lower_hex(bytes).len() == 2 * bytes.len(),
        forall|i: int|
            #![trigger bytes[i]]
            0 <= i < bytes.len() ==> {
                &&& (lower_hex(bytes)[2 * i] as u32) == (if bytes[i] / 16 < 10 {
                    48 + bytes[i] / 16
                } else {
                    87 + bytes[i] / 16
                })
                &&& (lower_hex(bytes)[2 * i + 1] as u32) == (if bytes[i] % 16 < 10 {
                    48 + bytes[i] % 16
                } else {
                    87 + bytes[i] % 16
                })
            },
        forall|j: int|
            0 <= j < lower_hex(bytes).len() ==> ('0' <= #[trigger] lower_hex(bytes)[j] <= '9') || (
            'a' <= lower_hex(bytes)[j] <= 'f'),
    decreases bytes.len(),
{
    lemma_hex_digit_codes();
    if bytes.len() > 0 {
        let b = bytes.drop_last();
        lemma_lower_hex_digits(b);
        let l = lower_hex(b);
        let last = bytes.last();
        let r = lower_hex(bytes);
        assert(r == l + hex_pair(last));
        let hi = hex_digits()[(last / 16) as int];
        let lo = hex_digits()[(last % 16) as int];
        assert(r[2 * (bytes.len() - 1)] == hi);
        assert(r[2 * (bytes.len() - 1) + 1] == lo);
        assert forall|i: int| #![trigger bytes[i]] 0 <= i < bytes.len() implies {
            &&& (r[2 * i] as u32) == (if bytes[i] / 16 < 10 {
                48 + bytes[i] / 16
            } else {
                87 + bytes[i] / 16
            })
            &&& (r[2 * i + 1] as u32) == (if bytes[i] % 16 < 10 {
                48 + bytes[i] % 16
            } else {
                87 + bytes[i] % 16
            })
        } by {
            if i < bytes.len() - 1 {
                assert(b[i] == bytes[i]);
                assert(r[2 * i] == l[2 * i]);
                assert(r[2 * i + 1] == l[2 * i + 1]);
            } else {
                assert(bytes[i] == last);
            }
        }
        assert forall|j: int| 0 <= j < r.len() implies ('0' <= #[trigger] r[j] <= '9') || ('a' <= r[j]
            <= 'f') by {
            if j < l.len() {
                assert(r[j] == l[j]);
            } else if j == l.len() {
                assert(r[j] == hi);
            } else {
                assert(r[j] == lo);
            }
        }
    }
}

/// The one-character string of the hexadecimal digit `n`.
fn hex_digit(n: usize) -> (r: &'static str)
    requires
        n < 16,
    ensures
        r@ == seq![hex_digits()[n as int]],
{
    let digits = "0123456789abcdef";
    proof {
        reveal_strlit("0123456789abcdef");
        assert(digits@ =~= hex_digits());
    }
    digits.substring_ascii(n, n + 1)
}

/// Writes bytes as lowercase hexadecimal text, two digits per byte.
pub fn to_lower_hex(bytes: &[u8]) -> (s: String)
    ensures
        s@ == lower_hex(bytes@),
{
    let mut s = String::new();
    let n = bytes.len();
    let mut i: usize = 0;
    while i < n
        invariant
            n == bytes@.len(),
            i <= n,
            s@ == lower_hex(bytes@.take(i as int)),
        decreases n - i,
    {
        let b = bytes[i];
        let hi = hex_digit((b / 16) as usize);
        let lo = hex_digit((b % 16) as usize);
        s.append(hi);
        s.append(lo);
        proof {
            let t = bytes@.take(i as int + 1);
            assert(t.drop_last() =~= bytes@.take(i as int));
            assert(t.last() == b);
        }
        i = i + 1;
    }
    proof {
        assert(bytes@.take(n as int) =~= bytes@);
    }
    s
}

} // verus!
